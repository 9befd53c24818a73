//! Closing the day: archiving notes into the monthly file and carrying
//! unfinished tasks forward.
//!
//! A close reads the daily file once, sends every line that is not an
//! unfinished task into a new block of the monthly file, and, when any
//! task lines remain, plans a fresh daily file for tomorrow that carries
//! them in order.  A monthly title line is planned only when the monthly
//! file is still empty.

use crate::date::Date;
use crate::fmt::{header_line, month_title, spec_header, spec_month_title};
use crate::lines::{
    contains_marker, has_marker, join_lines, lemma_join_lines_push, lines_of, split_lines,
};
use vstd::prelude::*;
use vstd::string::*;

verus! {

/// The line classifier for unfinished tasks.
pub open spec fn task_pred() -> spec_fn(Seq<char>) -> bool {
    |l: Seq<char>| has_marker(l)
}

/// The line classifier for everything else.
pub open spec fn note_pred() -> spec_fn(Seq<char>) -> bool {
    |l: Seq<char>| !has_marker(l)
}

/// The task lines of a daily file, in their original order.
pub open spec fn tasks_of(c: Seq<char>) -> Seq<Seq<char>> {
    lines_of(c).filter(task_pred())
}

/// The non-task lines of a daily file, in their original order.
pub open spec fn notes_of(c: Seq<char>) -> Seq<Seq<char>> {
    lines_of(c).filter(note_pred())
}

/// What one close appends to the monthly file: the title line when the
/// file is still empty, then a blank block holding every non-task line of
/// the daily file in order.
pub open spec fn spec_monthly_append(c: Seq<char>, d: Date, monthly_empty: bool) -> Seq<char> {
    (if monthly_empty {
        spec_month_title(d) + seq!['\n']
    } else {
        Seq::<char>::empty()
    }) + "\n\n"@ + join_lines(notes_of(c)) + "\n\n"@
}

/// The daily file a close seeds for tomorrow: tomorrow's header, a Tasks
/// section carrying `tasks` in order, and an empty Notes section.
pub open spec fn spec_tomorrow_file(tm: Date, tasks: Seq<Seq<char>>) -> Seq<char> {
    spec_header(tm) + seq!['\n'] + "\n\n"@ + "## Tasks\n\n"@ + join_lines(tasks) + "\n\n"@
        + "## Notes\n\n"@
}

/// The planned effect of one close: the text to append to the monthly
/// file, and, when unfinished tasks were found, the full new content of
/// the daily file for tomorrow.
pub struct Rotation {
    pub monthly_append: String,
    pub tomorrow: Option<String>,
}

/// Filtering one more element keeps it exactly when it satisfies the
/// predicate.
proof fn lemma_filter_push(ls: Seq<Seq<char>>, x: Seq<char>, pred: spec_fn(Seq<char>) -> bool)
    ensures
        ls.push(x).filter(pred) == if pred(x) {
            ls.filter(pred).push(x)
        } else {
            ls.filter(pred)
        },
{
    reveal_with_fuel(Seq::filter, 2);
    assert(ls.push(x).drop_last() =~= ls);
    assert(ls.push(x).last() == x);
}

/// Plan one close of the daily file.
///
/// `content` is the daily file's text, `today` the current date, and
/// `monthly_empty` whether the monthly file holds no bytes yet.  Returns
/// `None` exactly when tomorrow's date is not representable (the last
/// supported day); otherwise the monthly block is as `spec_monthly_append`
/// says, and a tomorrow file is planned if and only if the daily file had
/// at least one task line, with the content `spec_tomorrow_file` gives.
pub fn close_rotation(content: &str, today: Date, monthly_empty: bool) -> (r: Option<Rotation>)
    requires
        today.wf(),
    ensures
        r is Some <==> today.has_next(),
        r matches Some(rot) ==> {
            &&& rot.monthly_append@ == spec_monthly_append(content@, today, monthly_empty)
            &&& (rot.tomorrow is Some <==> tasks_of(content@).len() > 0)
            &&& (rot.tomorrow matches Some(t) ==> t@ == spec_tomorrow_file(
                today.spec_next(),
                tasks_of(content@),
            ))
        },
{
    let tomorrow = match today.next_day() {
        Some(t) => t,
        None => {
            return None;
        },
    };
    let ghost pre: Seq<char> = if monthly_empty {
        spec_month_title(today) + seq!['\n']
    } else {
        Seq::<char>::empty()
    } + "\n\n"@;
    let mut monthly: String;
    if monthly_empty {
        monthly = month_title(today);
        monthly.append("\n");
    } else {
        monthly = String::new();
    }
    monthly.append("\n\n");
    proof {
        reveal_strlit("\n");
        assert(monthly@ =~= pre);
    }
    let ls = split_lines(content);
    let mut tasks: Vec<String> = Vec::new();
    let mut k: usize = 0;
    proof {
        assert(ls.deep_view().take(0) =~= Seq::<Seq<char>>::empty());
        reveal_with_fuel(Seq::filter, 1);
        assert(Seq::<Seq<char>>::empty().filter(task_pred()) =~= Seq::<Seq<char>>::empty());
        assert(Seq::<Seq<char>>::empty().filter(note_pred()) =~= Seq::<Seq<char>>::empty());
        assert(tasks.deep_view() =~= Seq::<Seq<char>>::empty());
        assert(monthly@ =~= pre + join_lines(ls.deep_view().take(0).filter(note_pred())));
    }
    while k < ls.len()
        invariant
            k <= ls.len(),
            ls.deep_view() == lines_of(content@),
            tasks.deep_view() == ls.deep_view().take(k as int).filter(task_pred()),
            monthly@ == pre + join_lines(ls.deep_view().take(k as int).filter(note_pred())),
        decreases ls.len() - k,
    {
        let ghost taken = ls.deep_view().take(k as int);
        let ghost x = ls.deep_view()[k as int];
        proof {
            assert(ls.deep_view().take(k + 1) =~= taken.push(x));
            lemma_filter_push(taken, x, task_pred());
            lemma_filter_push(taken, x, note_pred());
            assert(ls.deep_view()[k as int] == ls@[k as int]@);
        }
        if contains_marker(ls[k].as_str()) {
            let t = ls[k].clone();
            let ghost old_tasks = tasks.deep_view();
            tasks.push(t);
            proof {
                assert(tasks.deep_view() =~= old_tasks.push(x));
            }
        } else {
            monthly.append(ls[k].as_str());
            monthly.append("\n");
            proof {
                reveal_strlit("\n");
                lemma_join_lines_push(taken.filter(note_pred()), x);
                assert(monthly@ =~= pre + join_lines(taken.push(x).filter(note_pred())));
            }
        }
        k += 1;
    }
    proof {
        assert(ls.deep_view().take(ls.len() as int) =~= ls.deep_view());
    }
    monthly.append("\n\n");
    proof {
        assert(monthly@ =~= spec_monthly_append(content@, today, monthly_empty));
    }
    let tomorrow_file: Option<String>;
    if tasks.len() > 0 {
        let mut t = header_line(tomorrow);
        t.append("\n");
        t.append("\n\n");
        t.append("## Tasks\n\n");
        let ghost head: Seq<char> = spec_header(tomorrow) + seq!['\n'] + "\n\n"@ + "## Tasks\n\n"@;
        proof {
            reveal_strlit("\n");
            assert(t@ =~= head + join_lines(tasks.deep_view().take(0)));
        }
        let mut j: usize = 0;
        while j < tasks.len()
            invariant
                j <= tasks.len(),
                tasks.deep_view() == tasks_of(content@),
                t@ == head + join_lines(tasks.deep_view().take(j as int)),
                head == spec_header(tomorrow) + seq!['\n'] + "\n\n"@ + "## Tasks\n\n"@,
            decreases tasks.len() - j,
        {
            let ghost tv = tasks.deep_view();
            t.append(tasks[j].as_str());
            t.append("\n");
            proof {
                reveal_strlit("\n");
                assert(tasks.deep_view()[j as int] == tasks@[j as int]@);
                assert(tv.take(j + 1) =~= tv.take(j as int).push(tv[j as int]));
                lemma_join_lines_push(tv.take(j as int), tv[j as int]);
                assert(t@ =~= head + join_lines(tv.take(j + 1)));
            }
            j += 1;
        }
        t.append("\n\n");
        t.append("## Notes\n\n");
        proof {
            assert(tasks.deep_view().take(tasks.len() as int) =~= tasks.deep_view());
            assert(t@ =~= spec_tomorrow_file(today.spec_next(), tasks_of(content@)));
        }
        tomorrow_file = Some(t);
    } else {
        tomorrow_file = None;
        proof {
            assert(tasks.deep_view().len() == 0);
        }
    }
    Some(Rotation { monthly_append: monthly, tomorrow: tomorrow_file })
}

} // verus!
