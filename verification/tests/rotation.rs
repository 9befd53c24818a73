use daily_log::date::Date;
use daily_log::rotate::close_rotation;

fn date(y: i64, m: u32, d: u32) -> Date {
    Date::new(y, m, d).unwrap()
}

#[test]
fn close_archives_notes_and_carries_tasks() {
    let rot = close_rotation(
        "## 2024-03-05\n- [ ] buy milk\nslept well\n",
        date(2024, 3, 5),
        true,
    )
    .unwrap();
    assert_eq!(
        rot.monthly_append,
        "# March 2024\n\n\n## 2024-03-05\nslept well\n\n\n"
    );
    assert_eq!(
        rot.tomorrow,
        Some("## 2024-03-06\n\n\n## Tasks\n\n- [ ] buy milk\n\n\n## Notes\n\n".to_string())
    );
}

#[test]
fn close_on_nonempty_monthly_writes_no_title() {
    let rot = close_rotation(
        "## 2024-03-05\n- [ ] buy milk\nslept well\n",
        date(2024, 3, 5),
        false,
    )
    .unwrap();
    assert_eq!(rot.monthly_append, "\n\n## 2024-03-05\nslept well\n\n\n");
    assert_eq!(
        rot.tomorrow,
        Some("## 2024-03-06\n\n\n## Tasks\n\n- [ ] buy milk\n\n\n## Notes\n\n".to_string())
    );
}

#[test]
fn close_without_tasks_plans_no_tomorrow_file() {
    let rot = close_rotation("## 2024-03-05\nslept well\n", date(2024, 3, 5), false).unwrap();
    assert_eq!(rot.monthly_append, "\n\n## 2024-03-05\nslept well\n\n\n");
    assert_eq!(rot.tomorrow, None);
}

#[test]
fn close_keeps_task_order_and_matches_marker_anywhere() {
    let rot = close_rotation(
        "## 2024-03-05\n- [ ] first\nnote one\nsee - [ ] embedded\n- [ ] last\n",
        date(2024, 3, 5),
        false,
    )
    .unwrap();
    assert_eq!(rot.monthly_append, "\n\n## 2024-03-05\nnote one\n\n\n");
    assert_eq!(
        rot.tomorrow,
        Some(
            "## 2024-03-06\n\n\n## Tasks\n\n- [ ] first\nsee - [ ] embedded\n- [ ] last\n\n\n## Notes\n\n"
                .to_string()
        )
    );
}

#[test]
fn close_of_empty_file_appends_blank_block() {
    let rot = close_rotation("", date(2024, 3, 5), false).unwrap();
    assert_eq!(rot.monthly_append, "\n\n\n\n");
    assert_eq!(rot.tomorrow, None);
}

#[test]
fn close_rolls_over_month_and_year() {
    let rot = close_rotation("- [ ] carry\n", date(2024, 12, 31), true).unwrap();
    assert_eq!(rot.monthly_append, "# December 2024\n\n\n\n\n");
    assert_eq!(
        rot.tomorrow,
        Some("## 2025-01-01\n\n\n## Tasks\n\n- [ ] carry\n\n\n## Notes\n\n".to_string())
    );
}

#[test]
fn close_fails_only_on_the_last_supported_day() {
    assert!(close_rotation("- [ ] x\n", date(9999, 12, 31), true).is_none());
    assert!(close_rotation("- [ ] x\n", date(9999, 12, 30), true).is_some());
}

#[test]
fn completed_tasks_are_archived_not_carried() {
    let rot = close_rotation(
        "## 2024-03-05\n- [x] done\n- [ ] open\n",
        date(2024, 3, 5),
        false,
    )
    .unwrap();
    assert_eq!(rot.monthly_append, "\n\n## 2024-03-05\n- [x] done\n\n\n");
    assert_eq!(
        rot.tomorrow,
        Some("## 2024-03-06\n\n\n## Tasks\n\n- [ ] open\n\n\n## Notes\n\n".to_string())
    );
}
