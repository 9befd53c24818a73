//! Splitting file content into lines and classifying task lines.
//!
//! A daily file is free-form text.  Lines are separated by `'\n'`; a
//! carriage return directly before the separator belongs to the separator
//! and not to the line, and a last fragment without a separator still
//! counts as a line.  A line is an unfinished task exactly when it
//! contains the task marker `"- [ ]"` anywhere; this is a raw substring
//! test, not a Markdown parse.

use vstd::prelude::*;
use vstd::string::*;

verus! {

/// The fixed marker that flags a line as an unfinished task.
pub open spec fn marker() -> Seq<char> {
    seq!['-', ' ', '[', ' ', ']']
}

/// Whether `l` contains the task marker as a contiguous substring.
pub open spec fn has_marker(l: Seq<char>) -> bool {
    exists|i: int| 0 <= i && i + 5 <= l.len() && #[trigger] l.subrange(i, i + 5) == marker()
}

/// Drop a single trailing carriage return, if any.
pub open spec fn strip_cr(l: Seq<char>) -> Seq<char> {
    if l.len() > 0 && l.last() == '\r' {
        l.drop_last()
    } else {
        l
    }
}

/// The lines of `s`, read left to right with `cur` as the partial line
/// accumulated so far.
pub open spec fn lines_rec(s: Seq<char>, cur: Seq<char>) -> Seq<Seq<char>>
    decreases s.len(),
{
    if s.len() == 0 {
        if cur.len() == 0 {
            Seq::empty()
        } else {
            seq![cur]
        }
    } else if s[0] == '\n' {
        seq![strip_cr(cur)] + lines_rec(s.drop_first(), Seq::empty())
    } else {
        lines_rec(s.drop_first(), cur.push(s[0]))
    }
}

/// The lines of `s`: separated by `'\n'`, a carriage return directly
/// before a separator stripped, a trailing fragment kept, and no empty
/// line produced by a trailing separator.
pub open spec fn lines_of(s: Seq<char>) -> Seq<Seq<char>> {
    lines_rec(s, Seq::empty())
}

/// The lines of `ls` written back out, each terminated by `'\n'`.
pub open spec fn join_lines(ls: Seq<Seq<char>>) -> Seq<char>
    decreases ls.len(),
{
    if ls.len() == 0 {
        Seq::empty()
    } else {
        ls[0] + seq!['\n'] + join_lines(ls.drop_first())
    }
}

/// `l` does not contain the character `c`.
pub open spec fn no_char(l: Seq<char>, c: char) -> bool {
    forall|i: int| 0 <= i < l.len() ==> l[i] != c
}

/// No line of `ls` ends in a bare carriage return.  A line that does
/// merges with the separator when written back out, so the line-level
/// round-trip statements hold under this condition.
pub open spec fn no_trailing_cr(ls: Seq<Seq<char>>) -> bool {
    forall|i: int| 0 <= i < ls.len() ==> ((#[trigger] ls[i]).len() > 0 ==> ls[i].last() != '\r')
}

/// Concatenation introduces no new character.
pub proof fn lemma_no_char_concat(a: Seq<char>, b: Seq<char>, c: char)
    requires
        no_char(a, c),
        no_char(b, c),
    ensures
        no_char(a + b, c),
{
}

/// A line without a right bracket cannot contain the task marker.
pub proof fn lemma_no_rbracket_no_marker(l: Seq<char>)
    requires
        no_char(l, ']'),
    ensures
        !has_marker(l),
{
    if has_marker(l) {
        let i = choose|i: int| 0 <= i && i + 5 <= l.len() && #[trigger] l.subrange(i, i + 5)
            == marker();
        assert(l.subrange(i, i + 5)[4] == l[i + 4]);
        assert(l[i + 4] == ']');
    }
}

/// A line shorter than the marker cannot contain it.
pub proof fn lemma_short_no_marker(l: Seq<char>)
    requires
        l.len() < 5,
    ensures
        !has_marker(l),
{
    if has_marker(l) {
        let i = choose|i: int| 0 <= i && i + 5 <= l.len() && #[trigger] l.subrange(i, i + 5)
            == marker();
    }
}

/// Reading a line and its separator off the front yields that line,
/// carriage-return-stripped, appended to whatever was accumulated.
proof fn lemma_lines_rec_line(l: Seq<char>, rest: Seq<char>, cur: Seq<char>)
    requires
        no_char(l, '\n'),
    ensures
        lines_rec(l + seq!['\n'] + rest, cur) == seq![strip_cr(cur + l)] + lines_rec(
            rest,
            Seq::empty(),
        ),
    decreases l.len(),
{
    let s = l + seq!['\n'] + rest;
    if l.len() == 0 {
        assert(s[0] == '\n');
        assert(s.drop_first() =~= rest);
        assert(cur + l =~= cur);
    } else {
        assert(s[0] == l[0]);
        assert(l[0] != '\n');
        assert(s.drop_first() =~= l.drop_first() + seq!['\n'] + rest);
        assert(no_char(l.drop_first(), '\n'));
        lemma_lines_rec_line(l.drop_first(), rest, cur.push(l[0]));
        assert(cur.push(l[0]) + l.drop_first() =~= cur + l);
    }
}

/// Lines written out with `join_lines` are read back unchanged, provided
/// no line holds a separator and none ends in a bare carriage return.
pub proof fn lemma_lines_of_join(ls: Seq<Seq<char>>)
    requires
        forall|i: int| 0 <= i < ls.len() ==> no_char(#[trigger] ls[i], '\n'),
        no_trailing_cr(ls),
    ensures
        lines_of(join_lines(ls)) == ls,
    decreases ls.len(),
{
    if ls.len() == 0 {
        assert(join_lines(ls) =~= Seq::<char>::empty());
        assert(lines_of(join_lines(ls)) =~= ls);
    } else {
        let rest = join_lines(ls.drop_first());
        lemma_lines_rec_line(ls[0], rest, Seq::empty());
        assert(Seq::<char>::empty() + ls[0] =~= ls[0]);
        assert(strip_cr(ls[0]) == ls[0]);
        assert(forall|i: int| 0 <= i < ls.drop_first().len() ==> no_char(
            #[trigger] ls.drop_first()[i],
            '\n',
        ));
        assert(no_trailing_cr(ls.drop_first())) by {
            assert(forall|i: int| 0 <= i < ls.drop_first().len() ==> ls.drop_first()[i] == ls[i
                + 1]);
        };
        lemma_lines_of_join(ls.drop_first());
        assert(lines_of(join_lines(ls)) =~= ls);
    }
}

/// Joining two line lists concatenates their texts.
pub proof fn lemma_join_lines_concat(a: Seq<Seq<char>>, b: Seq<Seq<char>>)
    ensures
        join_lines(a + b) == join_lines(a) + join_lines(b),
    decreases a.len(),
{
    if a.len() == 0 {
        assert(a + b =~= b);
        assert(join_lines(a + b) =~= join_lines(a) + join_lines(b));
    } else {
        assert((a + b)[0] == a[0]);
        assert((a + b).drop_first() =~= a.drop_first() + b);
        lemma_join_lines_concat(a.drop_first(), b);
        assert(join_lines(a + b) =~= join_lines(a) + join_lines(b));
    }
}

/// No line produced by `lines_rec` contains a separator, as long as the
/// accumulated partial line does not.
proof fn lemma_lines_rec_no_newline(s: Seq<char>, cur: Seq<char>)
    requires
        no_char(cur, '\n'),
    ensures
        forall|i: int|
            0 <= i < lines_rec(s, cur).len() ==> no_char(#[trigger] lines_rec(s, cur)[i], '\n'),
    decreases s.len(),
{
    let out = lines_rec(s, cur);
    if s.len() == 0 {
        assert forall|i: int| 0 <= i < out.len() implies no_char(#[trigger] out[i], '\n') by {
            assert(out[i] == cur);
        };
    } else if s[0] == '\n' {
        assert(no_char(strip_cr(cur), '\n'));
        lemma_lines_rec_no_newline(s.drop_first(), Seq::empty());
        assert forall|i: int| 0 <= i < out.len() implies no_char(#[trigger] out[i], '\n') by {
            if i == 0 {
                assert(out[0] == strip_cr(cur));
            } else {
                assert(out[i] == lines_rec(s.drop_first(), Seq::empty())[i - 1]);
            }
        };
    } else {
        assert(no_char(cur.push(s[0]), '\n'));
        lemma_lines_rec_no_newline(s.drop_first(), cur.push(s[0]));
        assert forall|i: int| 0 <= i < out.len() implies no_char(#[trigger] out[i], '\n') by {
            assert(out[i] == lines_rec(s.drop_first(), cur.push(s[0]))[i]);
        };
    }
}

/// No line of a split contains the separator.
pub proof fn lemma_lines_no_newline(s: Seq<char>)
    ensures
        forall|i: int| 0 <= i < lines_of(s).len() ==> no_char(#[trigger] lines_of(s)[i], '\n'),
{
    lemma_lines_rec_no_newline(s, Seq::empty());
}

/// Writing one more line appends its text and a separator.
pub proof fn lemma_join_lines_push(ls: Seq<Seq<char>>, x: Seq<char>)
    ensures
        join_lines(ls.push(x)) == join_lines(ls) + x + seq!['\n'],
    decreases ls.len(),
{
    if ls.len() == 0 {
        assert(ls.push(x)[0] == x);
        assert(ls.push(x).drop_first() =~= Seq::<Seq<char>>::empty());
        assert(join_lines(Seq::<Seq<char>>::empty()) == Seq::<char>::empty());
        assert(join_lines(ls.push(x)) =~= join_lines(ls) + x + seq!['\n']);
    } else {
        assert(ls.push(x).drop_first() =~= ls.drop_first().push(x));
        lemma_join_lines_push(ls.drop_first(), x);
        assert(join_lines(ls.push(x)) =~= join_lines(ls) + x + seq!['\n']);
    }
}

/// Whether `line` contains the task marker `"- [ ]"`.
pub fn contains_marker(line: &str) -> (r: bool)
    ensures
        r == has_marker(line@),
{
    let n = line.unicode_len();
    if n < 5 {
        return false;
    }
    let mut i: usize = 0;
    while i <= n - 5
        invariant
            line@.len() == n,
            5 <= n,
            i <= n - 4,
            forall|k: int| 0 <= k < i ==> #[trigger] line@.subrange(k, k + 5) != marker(),
        decreases n - i,
    {
        let c0 = line.get_char(i);
        let c1 = line.get_char(i + 1);
        let c2 = line.get_char(i + 2);
        let c3 = line.get_char(i + 3);
        let c4 = line.get_char(i + 4);
        if c0 == '-' && c1 == ' ' && c2 == '[' && c3 == ' ' && c4 == ']' {
            proof {
                assert(line@.subrange(i as int, i as int + 5) =~= marker());
            }
            return true;
        }
        proof {
            let k = i as int;
            assert(line@.subrange(k, k + 5) != marker()) by {
                if line@.subrange(k, k + 5) == marker() {
                    assert(line@.subrange(k, k + 5)[0] == line@[k]);
                    assert(line@.subrange(k, k + 5)[1] == line@[k + 1]);
                    assert(line@.subrange(k, k + 5)[2] == line@[k + 2]);
                    assert(line@.subrange(k, k + 5)[3] == line@[k + 3]);
                    assert(line@.subrange(k, k + 5)[4] == line@[k + 4]);
                }
            };
        }
        i += 1;
    }
    proof {
        assert(!has_marker(line@)) by {
            if has_marker(line@) {
                let w = choose|w: int| 0 <= w && w + 5 <= line@.len() && #[trigger] line@.subrange(
                    w,
                    w + 5,
                ) == marker();
                assert(line@.subrange(w, w + 5) != marker());
            }
        };
    }
    false
}

/// Split `s` into its lines, as `lines_of` describes.
pub fn split_lines(s: &str) -> (r: Vec<String>)
    ensures
        r.deep_view() == lines_of(s@),
{
    let n = s.unicode_len();
    let mut r: Vec<String> = Vec::new();
    let mut start: usize = 0;
    let mut i: usize = 0;
    proof {
        assert(s@.skip(0) =~= s@);
        assert(s@.subrange(0, 0) =~= Seq::<char>::empty());
        assert(r.deep_view() =~= Seq::<Seq<char>>::empty());
        assert(lines_of(s@) =~= r.deep_view() + lines_rec(s@.skip(0), s@.subrange(0, 0)));
    }
    while i < n
        invariant
            s@.len() == n,
            start <= i <= n,
            forall|j: int| start <= j < i ==> s@[j] != '\n',
            lines_of(s@) == r.deep_view() + lines_rec(
                s@.skip(i as int),
                s@.subrange(start as int, i as int),
            ),
        decreases n - i,
    {
        let ghost cur = s@.subrange(start as int, i as int);
        let c = s.get_char(i);
        if c == '\n' {
            let end = if i > start && s.get_char(i - 1) == '\r' {
                i - 1
            } else {
                i
            };
            let line = s.substring_char(start, end).to_owned();
            proof {
                if i > start && s@[i as int - 1] == '\r' {
                    assert(cur.len() > 0 && cur.last() == '\r');
                    assert(line@ =~= strip_cr(cur));
                } else {
                    assert(line@ =~= strip_cr(cur));
                }
                assert(s@.skip(i as int).drop_first() =~= s@.skip(i as int + 1));
                assert(s@.skip(i as int)[0] == s@[i as int]);
            }
            let ghost old_r = r.deep_view();
            r.push(line);
            proof {
                assert(r.deep_view() =~= old_r.push(line@));
                assert(lines_rec(s@.skip(i as int), cur) == seq![strip_cr(cur)] + lines_rec(
                    s@.skip(i as int + 1),
                    Seq::empty(),
                ));
                assert(s@.subrange(i as int + 1, i as int + 1) =~= Seq::<char>::empty());
                assert(lines_of(s@) =~= r.deep_view() + lines_rec(
                    s@.skip(i as int + 1),
                    s@.subrange(i as int + 1, i as int + 1),
                ));
            }
            start = i + 1;
        } else {
            proof {
                assert(s@.skip(i as int).drop_first() =~= s@.skip(i as int + 1));
                assert(s@.skip(i as int)[0] == s@[i as int]);
                assert(cur.push(s@[i as int]) =~= s@.subrange(start as int, i as int + 1));
            }
        }
        i += 1;
    }
    proof {
        assert(s@.skip(n as int) =~= Seq::<char>::empty());
    }
    if start < n {
        let line = s.substring_char(start, n).to_owned();
        let ghost old_r = r.deep_view();
        r.push(line);
        proof {
            assert(r.deep_view() =~= old_r.push(line@));
            assert(lines_of(s@) =~= r.deep_view());
        }
    } else {
        proof {
            assert(s@.subrange(start as int, n as int).len() == 0);
            assert(lines_of(s@) =~= r.deep_view());
        }
    }
    r
}

} // verus!
