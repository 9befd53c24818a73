//! The guarantees the library gives, stated and proved once over the spec
//! functions that the executable contracts use.

use crate::date::Date;
use crate::fmt::{
    lemma_header_chars, lemma_month_title_chars, spec_header, spec_month_title,
};
use crate::lines::{
    has_marker, join_lines, lemma_join_lines_concat, lemma_lines_no_newline, lemma_lines_of_join,
    lemma_short_no_marker, lines_of, no_char, no_trailing_cr,
};
use crate::rotate::{
    note_pred, notes_of, spec_monthly_append, spec_tomorrow_file, task_pred, tasks_of,
};
use crate::today::{spec_template, spec_today_plan};
use vstd::prelude::*;

verus! {

/// An element kept by a filter occurs in the original sequence.
proof fn lemma_filter_element(ls: Seq<Seq<char>>, pred: spec_fn(Seq<char>) -> bool, i: int)
    requires
        0 <= i < ls.filter(pred).len(),
    ensures
        ls.contains(ls.filter(pred)[i]),
    decreases ls.len(),
{
    reveal_with_fuel(Seq::filter, 2);
    if ls.len() > 0 {
        let sub = ls.drop_last().filter(pred);
        if i < sub.len() {
            lemma_filter_element(ls.drop_last(), pred, i);
            let j = choose|j: int| 0 <= j < ls.drop_last().len() && ls.drop_last()[j] == sub[i];
            assert(ls[j] == sub[i]);
        } else {
            assert(ls.filter(pred)[i] == ls.last());
        }
    }
}

/// Lines kept from a split by a filter hold no separator, and none ends
/// in a bare carriage return when none of the split's lines does.
proof fn lemma_filtered_lines_wf(c: Seq<char>, pred: spec_fn(Seq<char>) -> bool)
    requires
        no_trailing_cr(lines_of(c)),
    ensures
        forall|i: int|
            0 <= i < lines_of(c).filter(pred).len() ==> no_char(
                #[trigger] lines_of(c).filter(pred)[i],
                '\n',
            ),
        no_trailing_cr(lines_of(c).filter(pred)),
{
    lemma_lines_no_newline(c);
    let kept = lines_of(c).filter(pred);
    assert forall|i: int| 0 <= i < kept.len() implies no_char(#[trigger] kept[i], '\n') && (
    kept[i].len() > 0 ==> kept[i].last() != '\r') by {
        lemma_filter_element(lines_of(c), pred, i);
        let j = choose|j: int| 0 <= j < lines_of(c).len() && lines_of(c)[j] == kept[i];
        assert(no_char(lines_of(c)[j], '\n'));
    };
}

/// Opening today's log without `reset`, or when the daily file already
/// starts with today's header, plans no rewrite: the file is left
/// byte-identical.
pub proof fn law_today_keeps_file(c: Seq<char>, d: Date, reset: bool)
    requires
        lines_of(c).len() > 0,
        !reset || lines_of(c)[0] == spec_header(d),
    ensures
        spec_today_plan(Some(c), d, reset) is None,
{
}

/// Opening today's log with `reset` on a file whose first line is not
/// today's header rewrites it to today's header followed by every later
/// line, each written back in order with its separator.
pub proof fn law_today_reset_rewrites(c: Seq<char>, d: Date)
    requires
        lines_of(c).len() > 0,
        lines_of(c)[0] != spec_header(d),
    ensures
        spec_today_plan(Some(c), d, true) == Some(
            spec_header(d) + seq!['\n'] + join_lines(lines_of(c).drop_first()),
        ),
{
}

/// Line by line, a reset replaces only the first line: the new file's
/// lines are today's header followed by every later original line,
/// verbatim and in order.
pub proof fn law_today_reset_preserves_lines(c: Seq<char>, d: Date)
    requires
        lines_of(c).len() > 0,
        lines_of(c)[0] != spec_header(d),
        no_trailing_cr(lines_of(c)),
    ensures
        ({
            let new = spec_header(d) + seq!['\n'] + join_lines(lines_of(c).drop_first());
            &&& spec_today_plan(Some(c), d, true) == Some(new)
            &&& lines_of(new) == seq![spec_header(d)] + lines_of(c).drop_first()
        }),
{
    let tail = lines_of(c).drop_first();
    let full = seq![spec_header(d)] + tail;
    lemma_header_chars(d);
    lemma_lines_no_newline(c);
    assert(forall|i: int| 0 <= i < tail.len() ==> #[trigger] tail[i] == lines_of(c)[i + 1]);
    assert(forall|i: int| 0 <= i < full.len() ==> no_char(#[trigger] full[i], '\n'));
    assert(no_trailing_cr(full));
    lemma_lines_of_join(full);
    assert(full.drop_first() =~= tail);
    assert(join_lines(full) =~= spec_header(d) + seq!['\n'] + join_lines(tail));
}

/// When no daily file exists, opening today's log creates one whose first
/// line is today's header and whose body is exactly the fixed template.
pub proof fn law_today_creates_template(d: Date, reset: bool)
    ensures
        spec_today_plan(None, d, reset) == Some(spec_header(d) + seq!['\n'] + spec_template()),
{
}

/// The line list of the planned tomorrow file: a fixed skeleton around the
/// carried task lines.  Helper shared by the close laws.
proof fn lemma_tomorrow_lines(c: Seq<char>, tm: Date)
    requires
        no_trailing_cr(lines_of(c)),
    ensures
        lines_of(spec_tomorrow_file(tm, tasks_of(c))) == seq![
            spec_header(tm),
            Seq::<char>::empty(),
            Seq::<char>::empty(),
            "## Tasks"@,
            Seq::<char>::empty(),
        ] + tasks_of(c) + seq![
            Seq::<char>::empty(),
            Seq::<char>::empty(),
            "## Notes"@,
            Seq::<char>::empty(),
        ],
{
    let e = Seq::<char>::empty();
    let tasks = tasks_of(c);
    let pre = seq![spec_header(tm), e, e, "## Tasks"@, e];
    let post = seq![e, e, "## Notes"@, e];
    let full = pre + tasks + post;
    reveal_strlit("\n\n");
    reveal_strlit("## Tasks\n\n");
    reveal_strlit("## Tasks");
    reveal_strlit("## Notes\n\n");
    reveal_strlit("## Notes");
    lemma_header_chars(tm);
    lemma_filtered_lines_wf(c, task_pred());
    assert(no_char("## Tasks"@, '\n') && "## Tasks"@.len() > 0 && "## Tasks"@.last() != '\r');
    assert(no_char("## Notes"@, '\n') && "## Notes"@.len() > 0 && "## Notes"@.last() != '\r');
    assert(forall|i: int| 0 <= i < full.len() ==> no_char(#[trigger] full[i], '\n')) by {
        assert(forall|i: int|
            0 <= i < tasks.len() ==> full[i + pre.len()] == #[trigger] tasks[i]);
        assert(forall|i: int|
            0 <= i < post.len() ==> full[i + pre.len() + tasks.len()] == #[trigger] post[i]);
    };
    assert(no_trailing_cr(full)) by {
        assert(forall|i: int|
            0 <= i < tasks.len() ==> full[i + pre.len()] == #[trigger] tasks[i]);
        assert(forall|i: int|
            0 <= i < post.len() ==> full[i + pre.len() + tasks.len()] == #[trigger] post[i]);
    };
    lemma_lines_of_join(full);
    lemma_join_lines_concat(pre + tasks, post);
    lemma_join_lines_concat(pre, tasks);
    reveal_with_fuel(join_lines, 6);
    assert(join_lines(pre) =~= spec_header(tm) + seq!['\n'] + "\n\n"@ + "## Tasks\n\n"@);
    assert(join_lines(post) =~= "\n\n"@ + "## Notes\n\n"@);
    assert(join_lines(full) =~= spec_tomorrow_file(tm, tasks));
}

/// The line list of the planned monthly block: the title when the monthly
/// file is still empty, a blank, the note lines in order, and a closing
/// blank block.  Helper shared by the close laws.
proof fn lemma_monthly_lines(c: Seq<char>, d: Date, monthly_empty: bool)
    requires
        no_trailing_cr(lines_of(c)),
    ensures
        lines_of(spec_monthly_append(c, d, monthly_empty)) == (if monthly_empty {
            seq![spec_month_title(d), Seq::<char>::empty(), Seq::<char>::empty()]
        } else {
            seq![Seq::<char>::empty(), Seq::<char>::empty()]
        }) + notes_of(c) + seq![Seq::<char>::empty(), Seq::<char>::empty()],
{
    let e = Seq::<char>::empty();
    let notes = notes_of(c);
    let pre = if monthly_empty {
        seq![spec_month_title(d), e, e]
    } else {
        seq![e, e]
    };
    let post = seq![e, e];
    let full = pre + notes + post;
    reveal_strlit("\n\n");
    lemma_month_title_chars(d);
    lemma_filtered_lines_wf(c, note_pred());
    assert(forall|i: int| 0 <= i < full.len() ==> no_char(#[trigger] full[i], '\n')) by {
        assert(forall|i: int|
            0 <= i < notes.len() ==> full[i + pre.len()] == #[trigger] notes[i]);
        assert(forall|i: int|
            0 <= i < post.len() ==> full[i + pre.len() + notes.len()] == #[trigger] post[i]);
    };
    assert(no_trailing_cr(full)) by {
        assert(forall|i: int|
            0 <= i < notes.len() ==> full[i + pre.len()] == #[trigger] notes[i]);
        assert(forall|i: int|
            0 <= i < post.len() ==> full[i + pre.len() + notes.len()] == #[trigger] post[i]);
    };
    lemma_lines_of_join(full);
    lemma_join_lines_concat(pre + notes, post);
    lemma_join_lines_concat(pre, notes);
    reveal_with_fuel(join_lines, 4);
    if monthly_empty {
        assert(join_lines(pre) =~= spec_month_title(d) + seq!['\n'] + "\n\n"@);
    } else {
        assert(join_lines(pre) =~= "\n\n"@);
    }
    assert(join_lines(post) =~= "\n\n"@);
    assert(join_lines(full) =~= spec_monthly_append(c, d, monthly_empty));
}

/// Every task line of the daily file is carried, verbatim and in original
/// order, into the Tasks section of the planned tomorrow file — its lines
/// are a fixed skeleton with exactly the task lines inside — and no line
/// holding the task marker appears anywhere in the planned monthly block.
pub proof fn law_close_carries_tasks(c: Seq<char>, d: Date, tm: Date, monthly_empty: bool, l: Seq<char>)
    requires
        no_trailing_cr(lines_of(c)),
        has_marker(l),
    ensures
        lines_of(spec_tomorrow_file(tm, tasks_of(c))) == seq![
            spec_header(tm),
            Seq::<char>::empty(),
            Seq::<char>::empty(),
            "## Tasks"@,
            Seq::<char>::empty(),
        ] + tasks_of(c) + seq![
            Seq::<char>::empty(),
            Seq::<char>::empty(),
            "## Notes"@,
            Seq::<char>::empty(),
        ],
        forall|i: int| 0 <= i < tasks_of(c).len() ==> has_marker(#[trigger] tasks_of(c)[i]),
        !lines_of(spec_monthly_append(c, d, monthly_empty)).contains(l),
{
    lemma_tomorrow_lines(c, tm);
    assert forall|i: int| 0 <= i < tasks_of(c).len() implies has_marker(
        #[trigger] tasks_of(c)[i],
    ) by {
        lines_of(c).lemma_filter_pred(task_pred(), i);
    };
    lemma_monthly_lines(c, d, monthly_empty);
    let ml = lines_of(spec_monthly_append(c, d, monthly_empty));
    if ml.contains(l) {
        let i = choose|i: int| 0 <= i < ml.len() && ml[i] == l;
        let pre_len: int = if monthly_empty {
            3
        } else {
            2
        };
        lemma_month_title_chars(d);
        lemma_short_no_marker(Seq::<char>::empty());
        if pre_len <= i < pre_len + notes_of(c).len() {
            assert(ml[i] == notes_of(c)[i - pre_len]);
            lines_of(c).lemma_filter_pred(note_pred(), i - pre_len);
        }
    }
}

/// Every non-task line of the daily file is archived, verbatim and in
/// original order, as the body of the planned monthly block — and, as
/// long as it is not blank and not one of the skeleton lines the tomorrow
/// file is built of, it appears nowhere in the planned tomorrow file.
pub proof fn law_close_archives_notes(c: Seq<char>, d: Date, tm: Date, monthly_empty: bool, l: Seq<char>)
    requires
        no_trailing_cr(lines_of(c)),
        !has_marker(l),
        l.len() > 0,
        l != spec_header(tm),
        l != "## Tasks"@,
        l != "## Notes"@,
    ensures
        lines_of(spec_monthly_append(c, d, monthly_empty)) == (if monthly_empty {
            seq![spec_month_title(d), Seq::<char>::empty(), Seq::<char>::empty()]
        } else {
            seq![Seq::<char>::empty(), Seq::<char>::empty()]
        }) + notes_of(c) + seq![Seq::<char>::empty(), Seq::<char>::empty()],
        forall|i: int| 0 <= i < notes_of(c).len() ==> !has_marker(#[trigger] notes_of(c)[i]),
        !lines_of(spec_tomorrow_file(tm, tasks_of(c))).contains(l),
{
    lemma_monthly_lines(c, d, monthly_empty);
    assert forall|i: int| 0 <= i < notes_of(c).len() implies !has_marker(
        #[trigger] notes_of(c)[i],
    ) by {
        lines_of(c).lemma_filter_pred(note_pred(), i);
    };
    lemma_tomorrow_lines(c, tm);
    let tl = lines_of(spec_tomorrow_file(tm, tasks_of(c)));
    if tl.contains(l) {
        let i = choose|i: int| 0 <= i < tl.len() && tl[i] == l;
        if 5 <= i < 5 + tasks_of(c).len() {
            assert(tl[i] == tasks_of(c)[i - 5]);
            lines_of(c).lemma_filter_pred(task_pred(), i - 5);
        }
    }
}

/// The monthly title line is written exactly once per calendar month: a
/// close against an empty monthly file plans the title followed by the
/// plain block, a close against a non-empty one plans the plain block
/// alone, and every close plans a non-empty append — so after the first
/// close of a month the file can never be empty again, and no later close
/// of that month writes a second title.
pub proof fn law_month_title_once(c: Seq<char>, d: Date)
    ensures
        spec_monthly_append(c, d, true) == spec_month_title(d) + seq!['\n'] + spec_monthly_append(
            c,
            d,
            false,
        ),
        spec_monthly_append(c, d, false).len() >= 4,
{
    reveal_strlit("\n\n");
    assert(spec_monthly_append(c, d, true) =~= spec_month_title(d) + seq!['\n']
        + spec_monthly_append(c, d, false));
}

} // verus!
