use daily_log::config::Config;
use daily_log::date::{days_in_month, local_today, Date};
use daily_log::fmt::{header_line, month_file_name, month_name, month_title};
use daily_log::lines::{contains_marker, split_lines};
use daily_log::today::plan_today;

fn date(y: i64, m: u32, d: u32) -> Date {
    Date::new(y, m, d).unwrap()
}

#[test]
fn today_creates_daily_file_from_template() {
    let planned = plan_today(None, date(2024, 3, 5), false).unwrap();
    assert_eq!(
        planned,
        "## 2024-03-05\n\n### Tasks\n\n- [ ] \n\n### Notes\n\n\n"
    );
    // The reset flag makes no difference when no file exists.
    let planned_reset = plan_today(None, date(2024, 3, 5), true).unwrap();
    assert_eq!(planned, planned_reset);
}

#[test]
fn today_leaves_matching_or_unreset_file_alone() {
    let content = "## 2024-03-05\n- [ ] buy milk\nslept well\n";
    assert_eq!(plan_today(Some(content), date(2024, 3, 5), true), None);
    assert_eq!(plan_today(Some(content), date(2024, 3, 5), false), None);
    assert_eq!(plan_today(Some(content), date(2024, 3, 6), false), None);
    assert_eq!(plan_today(Some(""), date(2024, 3, 6), true), None);
}

#[test]
fn today_reset_replaces_only_the_header() {
    let content = "## 2024-03-05\n- [ ] buy milk\nslept well\n";
    let planned = plan_today(Some(content), date(2024, 3, 6), true).unwrap();
    assert_eq!(planned, "## 2024-03-06\n- [ ] buy milk\nslept well\n");
}

#[test]
fn today_reset_normalizes_line_endings_like_a_rewrite() {
    let content = "## 2024-03-05\r\nbody line\r\n";
    let planned = plan_today(Some(content), date(2024, 3, 6), true).unwrap();
    assert_eq!(planned, "## 2024-03-06\nbody line\n");
}

#[test]
fn header_and_month_strings_are_exact() {
    assert_eq!(header_line(date(2024, 3, 5)), "## 2024-03-05");
    assert_eq!(month_title(date(2024, 3, 5)), "# March 2024");
    assert_eq!(month_file_name(date(2024, 3, 5)), "2024-03.md");
    assert_eq!(header_line(date(987, 1, 9)), "## 0987-01-09");
    assert_eq!(month_title(date(987, 1, 9)), "# January 0987");
    assert_eq!(month_file_name(date(987, 1, 9)), "0987-01.md");
    assert_eq!(month_name(12), "December");
}

#[test]
fn date_validation_follows_the_calendar() {
    assert!(Date::new(2024, 2, 29).is_some());
    assert!(Date::new(2023, 2, 29).is_none());
    assert!(Date::new(1900, 2, 29).is_none());
    assert!(Date::new(2000, 2, 29).is_some());
    assert!(Date::new(2024, 13, 1).is_none());
    assert!(Date::new(2024, 0, 1).is_none());
    assert!(Date::new(2024, 4, 31).is_none());
    assert!(Date::new(2024, 1, 0).is_none());
    assert!(Date::new(10000, 1, 1).is_none());
    assert!(Date::new(0, 1, 1).is_none());
    assert_eq!(days_in_month(2024, 2), 29);
    assert_eq!(days_in_month(2023, 2), 28);
    assert_eq!(days_in_month(2023, 4), 30);
    assert_eq!(days_in_month(2023, 7), 31);
}

#[test]
fn next_day_steps_through_month_and_year_ends() {
    assert_eq!(date(2024, 3, 5).next_day(), Some(date(2024, 3, 6)));
    assert_eq!(date(2024, 2, 28).next_day(), Some(date(2024, 2, 29)));
    assert_eq!(date(2023, 2, 28).next_day(), Some(date(2023, 3, 1)));
    assert_eq!(date(2024, 4, 30).next_day(), Some(date(2024, 5, 1)));
    assert_eq!(date(2024, 12, 31).next_day(), Some(date(2025, 1, 1)));
    assert_eq!(date(9999, 12, 31).next_day(), None);
}

#[test]
fn local_today_reads_a_valid_calendar_date() {
    let today = local_today().unwrap();
    assert!((1..=12).contains(&today.month));
    assert!((1..=31).contains(&today.day));
    assert!((1..=9999).contains(&today.year));
    assert!(today.day <= days_in_month(today.year, today.month));
}

#[test]
fn split_lines_matches_line_reader_semantics() {
    let lines = split_lines("a\r\nb\nc");
    assert_eq!(lines, vec!["a", "b", "c"]);
    assert_eq!(split_lines(""), Vec::<String>::new());
    assert_eq!(split_lines("\n"), vec![""]);
    assert_eq!(split_lines("x\n"), vec!["x"]);
    assert_eq!(split_lines("x\r"), vec!["x\r"]);
}

#[test]
fn marker_detection_is_a_raw_substring_test() {
    assert!(contains_marker("- [ ] buy milk"));
    assert!(contains_marker("prefix - [ ] suffix"));
    assert!(contains_marker("- [ ]"));
    assert!(!contains_marker("- [x] done"));
    assert!(!contains_marker("-[ ] tight"));
    assert!(!contains_marker("plain note"));
    assert!(!contains_marker(""));
}

#[test]
fn config_carries_base_dir_and_optional_editor() {
    let config = Config {
        base_dir: "/tmp/logs".to_string(),
        editor: Some("vi".to_string()),
    };
    assert_eq!(config.base_dir, "/tmp/logs");
    assert_eq!(config.editor, Some("vi".to_string()));
    let bare = Config {
        base_dir: "/tmp/logs".to_string(),
        editor: None,
    };
    assert!(bare.editor.is_none());
}
