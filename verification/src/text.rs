//! Text primitives shared by the renderers: joining, repetition, line
//! splitting and prefix tests, each with its meaning as a function on
//! sequences of characters.

use vstd::prelude::*;
use vstd::string::*;
use crate::search::{first_index, lemma_first_index_is};

verus! {

/// `==` on `str`: two string slices are equal when they hold the same
/// characters.
pub assume_specification[ <str as PartialEq>::eq ](a: &str, b: &str) -> (r: bool)
    ensures
        r == (a@ == b@),
;

/// The characters of each of `names`.
pub open spec fn texts(names: Seq<String>) -> Seq<Seq<char>> {
    Seq::new(names.len(), |i: int| names[i]@)
}

/// The pieces of `parts` written one after another with `sep` between
/// neighbours.
pub open spec fn join(parts: Seq<Seq<char>>, sep: Seq<char>) -> Seq<char>
    decreases parts.len(),
{
    if parts.len() == 0 {
        Seq::empty()
    } else if parts.len() == 1 {
        parts[0]
    } else {
        join(parts.drop_last(), sep) + sep + parts.last()
    }
}

/// The pieces of `parts` written one after another.
pub open spec fn concat_all(parts: Seq<Seq<char>>) -> Seq<char>
    decreases parts.len(),
{
    if parts.len() == 0 {
        Seq::empty()
    } else {
        concat_all(parts.drop_last()) + parts.last()
    }
}

/// `unit` written `n` times.
pub open spec fn repeat(unit: Seq<char>, n: nat) -> Seq<char>
    decreases n,
{
    if n == 0 {
        Seq::empty()
    } else {
        repeat(unit, (n - 1) as nat) + unit
    }
}

/// Whether `s` begins with `prefix`.
pub open spec fn has_prefix(s: Seq<char>, prefix: Seq<char>) -> bool {
    prefix.len() <= s.len() && s.subrange(0, prefix.len() as int) == prefix
}

/// What is left of `s` after its first `prefix.len()` characters.
pub open spec fn after_prefix(s: Seq<char>, prefix: Seq<char>) -> Seq<char>
    recommends
        has_prefix(s, prefix),
{
    s.subrange(prefix.len() as int, s.len() as int)
}

/// Whether `pattern` occurs in `text`, at any place.
pub open spec fn occurs_in(text: Seq<char>, pattern: Seq<char>) -> bool {
    exists|at: int|
        0 <= at && at + pattern.len() <= text.len() && #[trigger] text.subrange(
            at,
            at + pattern.len(),
        ) == pattern
}

/// The position of the first line feed in `s`, or `s.len()` when it has none.
pub open spec fn first_newline(s: Seq<char>) -> int {
    first_index(s, |c: char| c == '\n')
}

/// `line` without one trailing carriage return.
pub open spec fn without_trailing_cr(line: Seq<char>) -> Seq<char> {
    if line.len() > 0 && line.last() == '\r' {
        line.drop_last()
    } else {
        line
    }
}

/// The lines of `s`. A line ends at a line feed, or at a carriage return
/// directly followed by one; the terminator belongs to no line. What follows
/// the last line feed is a line of its own unless it is empty, and it keeps a
/// trailing carriage return.
pub open spec fn lines_of(s: Seq<char>) -> Seq<Seq<char>>
    decreases s.len(),
{
    let n = first_newline(s);
    if s.len() == 0 {
        Seq::empty()
    } else if 0 <= n < s.len() {
        seq![without_trailing_cr(s.subrange(0, n))] + lines_of(s.subrange(n + 1, s.len() as int))
    } else {
        seq![s]
    }
}

/// Every line of `s`, each preceded by a line feed and `prefix`.
pub open spec fn prefix_lines(s: Seq<char>, prefix: Seq<char>) -> Seq<char> {
    concat_all(lines_of(s).map_values(|l: Seq<char>| seq!['\n'] + prefix + l))
}

/// The first line feed of `s` is at `n` when none comes before `n` and `n` is
/// a line feed or the end.
pub proof fn lemma_first_newline_is(s: Seq<char>, n: int)
    requires
        0 <= n <= s.len(),
        forall|k: int| 0 <= k < n ==> s[k] != '\n',
        n < s.len() ==> s[n] == '\n',
    ensures
        first_newline(s) == n,
{
    lemma_first_index_is(s, |c: char| c == '\n', n);
}

pub proof fn lemma_join_push(parts: Seq<Seq<char>>, sep: Seq<char>, last: Seq<char>)
    ensures
        join(parts.push(last), sep) == if parts.len() == 0 {
            last
        } else {
            join(parts, sep) + sep + last
        },
{
    assert(parts.push(last).drop_last() =~= parts);
}

pub proof fn lemma_concat_all_push(parts: Seq<Seq<char>>, last: Seq<char>)
    ensures
        concat_all(parts.push(last)) == concat_all(parts) + last,
{
    assert(parts.push(last).drop_last() =~= parts);
}

pub proof fn lemma_concat_all_add(first: Seq<Seq<char>>, second: Seq<Seq<char>>)
    ensures
        concat_all(first + second) == concat_all(first) + concat_all(second),
    decreases second.len(),
{
    if second.len() == 0 {
        assert(first + second =~= first);
    } else {
        lemma_concat_all_add(first, second.drop_last());
        assert((first + second).drop_last() =~= first + second.drop_last());
        assert((first + second).last() == second.last());
    }
}

/// A text occurs in what is written around it.
pub proof fn lemma_occurs_between(before: Seq<char>, text: Seq<char>, after: Seq<char>)
    ensures
        occurs_in(before + text + after, text),
{
    let whole = before + text + after;
    assert(whole.subrange(before.len() as int, (before.len() + text.len()) as int) =~= text);
}

/// What occurs in a part of a text occurs in the text.
pub proof fn lemma_occurs_within(whole: Seq<char>, part: Seq<char>, text: Seq<char>)
    requires
        occurs_in(whole, part),
        occurs_in(part, text),
    ensures
        occurs_in(whole, text),
{
    let i = choose|at: int|
        0 <= at && at + part.len() <= whole.len() && #[trigger] whole.subrange(at, at + part.len())
            == part;
    let j = choose|at: int|
        0 <= at && at + text.len() <= part.len() && #[trigger] part.subrange(at, at + text.len())
            == text;
    assert(whole.subrange(i + j, i + j + text.len()) =~= part.subrange(j, j + text.len()));
}

/// Each of the joined parts occurs in what joining them gives.
pub proof fn lemma_join_holds_part(parts: Seq<Seq<char>>, sep: Seq<char>, i: int)
    requires
        0 <= i < parts.len(),
    ensures
        occurs_in(join(parts, sep), parts[i]),
    decreases parts.len(),
{
    let empty = Seq::<char>::empty();
    if parts.len() == 1 {
        lemma_occurs_between(empty, parts[0], empty);
        assert(empty + parts[0] + empty =~= parts[0]);
    } else {
        let shorter = parts.drop_last();
        let head = join(shorter, sep);
        if i == parts.len() - 1 {
            lemma_occurs_between(head + sep, parts[i], empty);
            assert(head + sep + parts[i] + empty =~= join(parts, sep));
        } else {
            lemma_join_holds_part(shorter, sep, i);
            lemma_occurs_between(empty, head, sep + parts.last());
            assert(empty + head + (sep + parts.last()) =~= join(parts, sep));
            lemma_occurs_within(join(parts, sep), head, parts[i]);
        }
    }
}

/// Joins `parts` with `sep` between neighbours.
pub fn join_strings(parts: &Vec<String>, sep: &str) -> (r: String)
    ensures
        r@ == join(parts.deep_view(), sep@),
{
    let mut out = String::new();
    let mut i: usize = 0;
    while i < parts.len()
        invariant
            i <= parts.len(),
            out@ == join(parts.deep_view().take(i as int), sep@),
        decreases parts.len() - i,
    {
        proof {
            let done = parts.deep_view().take(i as int);
            assert(parts.deep_view().take(i + 1) =~= done.push(parts[i as int]@));
            lemma_join_push(done, sep@, parts[i as int]@);
        }
        if i > 0 {
            out.append(sep);
        }
        out.append(parts[i].as_str());
        i = i + 1;
    }
    proof {
        assert(parts.deep_view().take(i as int) =~= parts.deep_view());
    }
    out
}

/// Writes `unit` `n` times.
pub fn repeat_str(unit: &str, n: usize) -> (r: String)
    ensures
        r@ == repeat(unit@, n as nat),
{
    let mut out = String::new();
    let mut i: usize = 0;
    while i < n
        invariant
            i <= n,
            out@ == repeat(unit@, i as nat),
        decreases n - i,
    {
        out.append(unit);
        i = i + 1;
    }
    out
}

/// Tests whether `s` begins with `prefix`.
pub fn starts_with(s: &str, prefix: &str) -> (b: bool)
    ensures
        b == has_prefix(s@, prefix@),
{
    let n = prefix.unicode_len();
    if n > s.unicode_len() {
        return false;
    }
    *s.substring_char(0, n) == *prefix
}

/// Drops the first characters of `s`, as many as `prefix` has.
pub fn strip_prefix<'a>(s: &'a str, prefix: &str) -> (r: &'a str)
    requires
        has_prefix(s@, prefix@),
    ensures
        r@ == after_prefix(s@, prefix@),
{
    s.substring_char(prefix.unicode_len(), s.unicode_len())
}

/// Splits `s` into its lines.
pub fn lines(s: &str) -> (r: Vec<String>)
    ensures
        r.deep_view() == lines_of(s@),
{
    let len = s.unicode_len();
    let mut out: Vec<String> = Vec::new();
    let mut start: usize = 0;
    let mut i: usize = 0;
    let mut after_cr = false;
    proof {
        assert(s@.subrange(0, len as int) =~= s@);
        assert(out.deep_view() + lines_of(s@) =~= lines_of(s@));
    }
    for c in it: s.chars()
        invariant
            it.seq() == s@,
            len == s@.len(),
            i == it.index(),
            start <= i <= len,
            forall|k: int| start <= k < i ==> s@[k] != '\n',
            after_cr == (start < i && s@[i - 1] == '\r'),
            lines_of(s@) == out.deep_view() + lines_of(s@.subrange(start as int, len as int)),
    {
        if c == '\n' {
            let end = if after_cr { i - 1 } else { i };
            let line = String::from_str(s.substring_char(start, end));
            proof {
                let rest = s@.subrange(start as int, len as int);
                assert forall|k: int| 0 <= k < i - start implies rest[k] != '\n' by {
                    assert(rest[k] == s@[start + k]);
                }
                lemma_first_newline_is(rest, i - start);
                assert(rest.subrange(0, i - start) =~= s@.subrange(start as int, i as int));
                assert(rest.subrange(i - start + 1, rest.len() as int) =~= s@.subrange(
                    i + 1,
                    len as int,
                ));
                assert(line@ =~= without_trailing_cr(s@.subrange(start as int, i as int)));
                assert(out.deep_view().push(line@) =~= out.deep_view() + seq![line@]);
                assert(out.deep_view().push(line@) + lines_of(s@.subrange(i + 1, len as int))
                    =~= out.deep_view() + (seq![line@] + lines_of(
                    s@.subrange(i + 1, len as int),
                )));
            }
            let ghost before = out.deep_view();
            out.push(line);
            proof {
                assert(out.deep_view() =~= before.push(line@));
            }
            start = i + 1;
        }
        after_cr = c == '\r';
        i = i + 1;
    }
    if start < len {
        let line = String::from_str(s.substring_char(start, len));
        proof {
            let rest = s@.subrange(start as int, len as int);
            assert forall|k: int| 0 <= k < rest.len() implies rest[k] != '\n' by {
                assert(rest[k] == s@[start + k]);
            }
            lemma_first_newline_is(rest, rest.len() as int);
            assert(line@ == rest);
        }
        let ghost before = out.deep_view();
        out.push(line);
        proof {
            assert(out.deep_view() =~= before.push(line@));
            assert(before.push(line@) =~= before + seq![line@]);
        }
    } else {
        proof {
            assert(s@.subrange(start as int, len as int) =~= Seq::<char>::empty());
            assert(out.deep_view() + Seq::<Seq<char>>::empty() =~= out.deep_view());
        }
    }
    out
}

/// Writes every line of `s` preceded by a line feed and `prefix`.
pub fn prefix_each_line(s: &str, prefix: &str) -> (r: String)
    ensures
        r@ == prefix_lines(s@, prefix@),
{
    let all = lines(s);
    let mut out = String::new();
    let mut i: usize = 0;
    let ghost marked = lines_of(s@).map_values(|l: Seq<char>| seq!['\n'] + prefix@ + l);
    while i < all.len()
        invariant
            i <= all.len(),
            all.deep_view() == lines_of(s@),
            marked == lines_of(s@).map_values(|l: Seq<char>| seq!['\n'] + prefix@ + l),
            out@ == concat_all(marked.take(i as int)),
        decreases all.len() - i,
    {
        proof {
            reveal_strlit("\n");
            assert(all.deep_view()[i as int] == all[i as int]@);
            assert(marked.take(i + 1) =~= marked.take(i as int).push(marked[i as int]));
            lemma_concat_all_push(marked.take(i as int), marked[i as int]);
            assert("\n"@ =~= seq!['\n']);
        }
        out.append("\n");
        out.append(prefix);
        out.append(all[i].as_str());
        i = i + 1;
    }
    proof {
        assert(marked.take(i as int) =~= marked);
    }
    out
}

} // verus!
