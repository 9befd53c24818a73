//! Deciding what opening today's log does to the daily file.
//!
//! Opening the log never touches a file that is already headed by today's
//! date, and never touches one at all unless a re-date was asked for.  A
//! missing file is created from a fixed template; a re-date keeps every
//! line after the header unchanged.

use crate::date::Date;
use crate::fmt::{header_line, spec_header};
use crate::lines::{join_lines, lines_of, split_lines};
use vstd::prelude::*;
use vstd::string::*;

verus! {

/// The body a fresh daily file gets, directly after the header line: a
/// Tasks section with one empty checkbox item and an empty Notes section.
pub open spec fn spec_template() -> Seq<char> {
    "\n### Tasks\n\n- [ ] \n\n### Notes\n\n\n"@
}

/// The view of an optional borrowed file content.
pub open spec fn opt_view(existing: Option<&str>) -> Option<Seq<char>> {
    match existing {
        Option::Some(c) => Option::Some(c@),
        Option::None => Option::None,
    }
}

/// What opening today's log writes over the daily file, given the file's
/// current content (`None` when the file does not exist), today's date,
/// and the re-date flag.
///
/// - no file: a fresh file, today's header followed by the template;
/// - a file whose first line differs from today's header, with `reset`
///   set: today's header followed by every later line unchanged;
/// - anything else, an empty file included: no rewrite at all.
pub open spec fn spec_today_plan(existing: Option<Seq<char>>, d: Date, reset: bool) -> Option<
    Seq<char>,
> {
    match existing {
        Option::None => Option::Some(spec_header(d) + seq!['\n'] + spec_template()),
        Option::Some(c) => {
            let ls = lines_of(c);
            if ls.len() > 0 && ls[0] != spec_header(d) && reset {
                Option::Some(spec_header(d) + seq!['\n'] + join_lines(ls.drop_first()))
            } else {
                Option::None
            }
        },
    }
}

/// Plan the rewrite of the daily file for opening today's log.
///
/// Returns the full new content to write when a rewrite is due, exactly
/// as `spec_today_plan` describes, and `None` when the file is to be left
/// byte-identical.
pub fn plan_today(existing: Option<&str>, today: Date, reset: bool) -> (r: Option<String>)
    requires
        today.wf(),
    ensures
        r is Some <==> spec_today_plan(opt_view(existing), today, reset) is Some,
        r matches Some(s) ==> spec_today_plan(opt_view(existing), today, reset) == Some(s@),
{
    match existing {
        None => {
            let mut out = header_line(today);
            out.append("\n");
            out.append("\n### Tasks\n\n- [ ] \n\n### Notes\n\n\n");
            proof {
                reveal_strlit("\n");
                assert(out@ =~= spec_header(today) + seq!['\n'] + spec_template());
            }
            Some(out)
        },
        Some(c) => {
            let ls = split_lines(c);
            if ls.len() == 0 {
                return None;
            }
            let header = header_line(today);
            proof {
                assert(ls.deep_view()[0] == ls@[0]@);
            }
            if reset && !(ls[0] == header) {
                let mut out = header;
                out.append("\n");
                proof {
                    reveal_strlit("\n");
                    assert(out@ =~= spec_header(today) + seq!['\n'] + join_lines(
                        lines_of(c@).drop_first().take(0),
                    ));
                }
                let mut k: usize = 1;
                while k < ls.len()
                    invariant
                        1 <= k <= ls.len(),
                        ls.deep_view() == lines_of(c@),
                        out@ == spec_header(today) + seq!['\n'] + join_lines(
                            lines_of(c@).drop_first().take(k - 1),
                        ),
                    decreases ls.len() - k,
                {
                    let ghost tail = lines_of(c@).drop_first();
                    out.append(ls[k].as_str());
                    out.append("\n");
                    proof {
                        reveal_strlit("\n");
                        assert(ls.deep_view()[k as int] == ls@[k as int]@);
                        assert(tail.take(k as int) =~= tail.take(k - 1).push(tail[k - 1]));
                        crate::lines::lemma_join_lines_push(tail.take(k - 1), tail[k - 1]);
                        assert(out@ =~= spec_header(today) + seq!['\n'] + join_lines(
                            tail.take(k as int),
                        ));
                    }
                    k += 1;
                }
                proof {
                    let tail = lines_of(c@).drop_first();
                    assert(tail.take(ls.len() - 1) =~= tail);
                }
                Some(out)
            } else {
                None
            }
        },
    }
}

} // verus!
