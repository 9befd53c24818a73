//! Rendering dates into the fixed strings the log files use: the daily
//! header `## YYYY-MM-DD`, the monthly title `# <Month> YYYY`, and the
//! monthly file name `YYYY-MM.md`.

use crate::date::Date;
use crate::lines::{lemma_no_char_concat, no_char};
use vstd::prelude::*;
use vstd::string::*;

verus! {

/// The decimal digit character for `n` in 0..=9.
pub open spec fn spec_digit(n: int) -> char {
    if n == 0 {
        '0'
    } else if n == 1 {
        '1'
    } else if n == 2 {
        '2'
    } else if n == 3 {
        '3'
    } else if n == 4 {
        '4'
    } else if n == 5 {
        '5'
    } else if n == 6 {
        '6'
    } else if n == 7 {
        '7'
    } else if n == 8 {
        '8'
    } else {
        '9'
    }
}

/// `n` in decimal, zero-padded to two digits.
pub open spec fn spec_two_digits(n: int) -> Seq<char> {
    seq![spec_digit(n / 10 % 10), spec_digit(n % 10)]
}

/// `n` in decimal, zero-padded to four digits.
pub open spec fn spec_four_digits(n: int) -> Seq<char> {
    seq![
        spec_digit(n / 1000 % 10),
        spec_digit(n / 100 % 10),
        spec_digit(n / 10 % 10),
        spec_digit(n % 10),
    ]
}

/// The first line of a daily file for date `d`.
pub open spec fn spec_header(d: Date) -> Seq<char> {
    "## "@ + spec_four_digits(d.year as int) + "-"@ + spec_two_digits(d.month as int) + "-"@
        + spec_two_digits(d.day as int)
}

/// The English name of month `m`, as the monthly title shows it.
pub open spec fn spec_month_name(m: int) -> Seq<char> {
    if m == 1 {
        "January"@
    } else if m == 2 {
        "February"@
    } else if m == 3 {
        "March"@
    } else if m == 4 {
        "April"@
    } else if m == 5 {
        "May"@
    } else if m == 6 {
        "June"@
    } else if m == 7 {
        "July"@
    } else if m == 8 {
        "August"@
    } else if m == 9 {
        "September"@
    } else if m == 10 {
        "October"@
    } else if m == 11 {
        "November"@
    } else {
        "December"@
    }
}

/// The title line a fresh monthly file starts with.
pub open spec fn spec_month_title(d: Date) -> Seq<char> {
    "# "@ + spec_month_name(d.month as int) + " "@ + spec_four_digits(d.year as int)
}

/// The file name of the monthly archive for `d`'s month.
pub open spec fn spec_month_file_name(d: Date) -> Seq<char> {
    spec_four_digits(d.year as int) + "-"@ + spec_two_digits(d.month as int) + ".md"@
}

/// A digit character is neither a separator, a carriage return, nor a
/// right bracket.
pub proof fn lemma_digit_char(n: int)
    ensures
        spec_digit(n) != '\n',
        spec_digit(n) != '\r',
        spec_digit(n) != ']',
{
}

/// The daily header contains no separator and no carriage return.
pub proof fn lemma_header_chars(d: Date)
    ensures
        no_char(spec_header(d), '\n'),
        no_char(spec_header(d), '\r'),
        spec_header(d).len() > 0,
{
    reveal_strlit("## ");
    reveal_strlit("-");
    assert(no_char("## "@, '\n') && no_char("## "@, '\r'));
    assert(no_char("-"@, '\n') && no_char("-"@, '\r'));
    assert(no_char(spec_four_digits(d.year as int), '\n') && no_char(
        spec_four_digits(d.year as int),
        '\r',
    )) by {
        lemma_digit_char(d.year as int / 1000 % 10);
        lemma_digit_char(d.year as int / 100 % 10);
        lemma_digit_char(d.year as int / 10 % 10);
        lemma_digit_char(d.year as int % 10);
    };
    assert(no_char(spec_two_digits(d.month as int), '\n') && no_char(
        spec_two_digits(d.month as int),
        '\r',
    )) by {
        lemma_digit_char(d.month as int / 10 % 10);
        lemma_digit_char(d.month as int % 10);
    };
    assert(no_char(spec_two_digits(d.day as int), '\n') && no_char(
        spec_two_digits(d.day as int),
        '\r',
    )) by {
        lemma_digit_char(d.day as int / 10 % 10);
        lemma_digit_char(d.day as int % 10);
    };
    lemma_no_char_concat("## "@, spec_four_digits(d.year as int), '\n');
    lemma_no_char_concat("## "@ + spec_four_digits(d.year as int), "-"@, '\n');
    lemma_no_char_concat(
        "## "@ + spec_four_digits(d.year as int) + "-"@,
        spec_two_digits(d.month as int),
        '\n',
    );
    lemma_no_char_concat(
        "## "@ + spec_four_digits(d.year as int) + "-"@ + spec_two_digits(d.month as int),
        "-"@,
        '\n',
    );
    lemma_no_char_concat(
        "## "@ + spec_four_digits(d.year as int) + "-"@ + spec_two_digits(d.month as int) + "-"@,
        spec_two_digits(d.day as int),
        '\n',
    );
    lemma_no_char_concat("## "@, spec_four_digits(d.year as int), '\r');
    lemma_no_char_concat("## "@ + spec_four_digits(d.year as int), "-"@, '\r');
    lemma_no_char_concat(
        "## "@ + spec_four_digits(d.year as int) + "-"@,
        spec_two_digits(d.month as int),
        '\r',
    );
    lemma_no_char_concat(
        "## "@ + spec_four_digits(d.year as int) + "-"@ + spec_two_digits(d.month as int),
        "-"@,
        '\r',
    );
    lemma_no_char_concat(
        "## "@ + spec_four_digits(d.year as int) + "-"@ + spec_two_digits(d.month as int) + "-"@,
        spec_two_digits(d.day as int),
        '\r',
    );
}

/// Month names hold no separator, no carriage return, and no right
/// bracket.
proof fn lemma_month_name_chars(m: int)
    ensures
        no_char(spec_month_name(m), '\n'),
        no_char(spec_month_name(m), '\r'),
        no_char(spec_month_name(m), ']'),
{
    reveal_strlit("January");
    reveal_strlit("February");
    reveal_strlit("March");
    reveal_strlit("April");
    reveal_strlit("May");
    reveal_strlit("June");
    reveal_strlit("July");
    reveal_strlit("August");
    reveal_strlit("September");
    reveal_strlit("October");
    reveal_strlit("November");
    reveal_strlit("December");
}

/// The monthly title line holds no separator, no carriage return, and no
/// task marker.
pub proof fn lemma_month_title_chars(d: Date)
    ensures
        no_char(spec_month_title(d), '\n'),
        no_char(spec_month_title(d), '\r'),
        !crate::lines::has_marker(spec_month_title(d)),
        spec_month_title(d).len() > 0,
{
    reveal_strlit("# ");
    reveal_strlit(" ");
    lemma_month_name_chars(d.month as int);
    lemma_digit_char(d.year as int / 1000 % 10);
    lemma_digit_char(d.year as int / 100 % 10);
    lemma_digit_char(d.year as int / 10 % 10);
    lemma_digit_char(d.year as int % 10);
    assert(no_char("# "@, '\n') && no_char("# "@, '\r') && no_char("# "@, ']'));
    assert(no_char(" "@, '\n') && no_char(" "@, '\r') && no_char(" "@, ']'));
    assert(no_char(spec_four_digits(d.year as int), '\n') && no_char(
        spec_four_digits(d.year as int),
        '\r',
    ) && no_char(spec_four_digits(d.year as int), ']'));
    lemma_no_char_concat("# "@, spec_month_name(d.month as int), '\n');
    lemma_no_char_concat("# "@ + spec_month_name(d.month as int), " "@, '\n');
    lemma_no_char_concat(
        "# "@ + spec_month_name(d.month as int) + " "@,
        spec_four_digits(d.year as int),
        '\n',
    );
    lemma_no_char_concat("# "@, spec_month_name(d.month as int), '\r');
    lemma_no_char_concat("# "@ + spec_month_name(d.month as int), " "@, '\r');
    lemma_no_char_concat(
        "# "@ + spec_month_name(d.month as int) + " "@,
        spec_four_digits(d.year as int),
        '\r',
    );
    lemma_no_char_concat("# "@, spec_month_name(d.month as int), ']');
    lemma_no_char_concat("# "@ + spec_month_name(d.month as int), " "@, ']');
    lemma_no_char_concat(
        "# "@ + spec_month_name(d.month as int) + " "@,
        spec_four_digits(d.year as int),
        ']',
    );
    crate::lines::lemma_no_rbracket_no_marker(spec_month_title(d));
}

/// Append the decimal digit for `n` to `s`.
fn push_digit(s: &mut String, n: u32)
    requires
        n < 10,
    ensures
        final(s)@ == old(s)@ + seq![spec_digit(n as int)],
{
    if n == 0 {
        s.append("0");
        proof {
            reveal_strlit("0");
            assert(s@ =~= old(s)@ + seq![spec_digit(n as int)]);
        }
    } else if n == 1 {
        s.append("1");
        proof {
            reveal_strlit("1");
            assert(s@ =~= old(s)@ + seq![spec_digit(n as int)]);
        }
    } else if n == 2 {
        s.append("2");
        proof {
            reveal_strlit("2");
            assert(s@ =~= old(s)@ + seq![spec_digit(n as int)]);
        }
    } else if n == 3 {
        s.append("3");
        proof {
            reveal_strlit("3");
            assert(s@ =~= old(s)@ + seq![spec_digit(n as int)]);
        }
    } else if n == 4 {
        s.append("4");
        proof {
            reveal_strlit("4");
            assert(s@ =~= old(s)@ + seq![spec_digit(n as int)]);
        }
    } else if n == 5 {
        s.append("5");
        proof {
            reveal_strlit("5");
            assert(s@ =~= old(s)@ + seq![spec_digit(n as int)]);
        }
    } else if n == 6 {
        s.append("6");
        proof {
            reveal_strlit("6");
            assert(s@ =~= old(s)@ + seq![spec_digit(n as int)]);
        }
    } else if n == 7 {
        s.append("7");
        proof {
            reveal_strlit("7");
            assert(s@ =~= old(s)@ + seq![spec_digit(n as int)]);
        }
    } else if n == 8 {
        s.append("8");
        proof {
            reveal_strlit("8");
            assert(s@ =~= old(s)@ + seq![spec_digit(n as int)]);
        }
    } else {
        s.append("9");
        proof {
            reveal_strlit("9");
            assert(s@ =~= old(s)@ + seq![spec_digit(n as int)]);
        }
    }
}

/// Append `n` zero-padded to two digits.
fn push_two_digits(s: &mut String, n: u32)
    requires
        n < 100,
    ensures
        final(s)@ == old(s)@ + spec_two_digits(n as int),
{
    push_digit(s, n / 10);
    push_digit(s, n % 10);
    proof {
        assert(s@ =~= old(s)@ + spec_two_digits(n as int));
    }
}

/// Append `n` zero-padded to four digits.
fn push_four_digits(s: &mut String, n: u32)
    requires
        n < 10000,
    ensures
        final(s)@ == old(s)@ + spec_four_digits(n as int),
{
    push_digit(s, n / 1000);
    push_digit(s, n / 100 % 10);
    push_digit(s, n / 10 % 10);
    push_digit(s, n % 10);
    proof {
        assert(n as int / 1000 % 10 == n as int / 1000);
        assert(s@ =~= old(s)@ + spec_four_digits(n as int));
    }
}

/// The daily header line `## YYYY-MM-DD` for `d`.
pub fn header_line(d: Date) -> (r: String)
    requires
        d.wf(),
    ensures
        r@ == spec_header(d),
{
    let mut s = String::new();
    s.append("## ");
    push_four_digits(&mut s, d.year);
    s.append("-");
    push_two_digits(&mut s, d.month);
    s.append("-");
    push_two_digits(&mut s, d.day);
    proof {
        assert(s@ =~= spec_header(d));
    }
    s
}

/// The English month name for month `m`.
pub fn month_name(m: u32) -> (r: &'static str)
    requires
        1 <= m <= 12,
    ensures
        r@ == spec_month_name(m as int),
{
    if m == 1 {
        "January"
    } else if m == 2 {
        "February"
    } else if m == 3 {
        "March"
    } else if m == 4 {
        "April"
    } else if m == 5 {
        "May"
    } else if m == 6 {
        "June"
    } else if m == 7 {
        "July"
    } else if m == 8 {
        "August"
    } else if m == 9 {
        "September"
    } else if m == 10 {
        "October"
    } else if m == 11 {
        "November"
    } else {
        "December"
    }
}

/// The title line `# <Month> YYYY` for a fresh monthly file.
pub fn month_title(d: Date) -> (r: String)
    requires
        d.wf(),
    ensures
        r@ == spec_month_title(d),
{
    let mut s = String::new();
    s.append("# ");
    s.append(month_name(d.month));
    s.append(" ");
    push_four_digits(&mut s, d.year);
    proof {
        assert(s@ =~= spec_month_title(d));
    }
    s
}

/// The monthly archive file name `YYYY-MM.md` for `d`'s month.
pub fn month_file_name(d: Date) -> (r: String)
    requires
        d.wf(),
    ensures
        r@ == spec_month_file_name(d),
{
    let mut s = String::new();
    push_four_digits(&mut s, d.year);
    s.append("-");
    push_two_digits(&mut s, d.month);
    s.append(".md");
    proof {
        assert(s@ =~= spec_month_file_name(d));
    }
    s
}

} // verus!
