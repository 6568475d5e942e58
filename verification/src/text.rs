//! Text conventions: conversion between strings and character sequences,
//! whitespace trimming, splitting into lines and joining them again,
//! and decimal numbers.

use vstd::prelude::*;

verus! {

/// The lines held by a vector of strings, each as its sequence of
/// characters.
pub open spec fn texts(lines: Seq<String>) -> Seq<Seq<char>> {
    lines.map_values(|line: String| line@)
}

/// Whether `c` is white space in the sense of Unicode's `White_Space`
/// property.
pub open spec fn is_whitespace(c: char) -> bool {
    ||| ('\u{9}' <= c && c <= '\u{D}')
    ||| c == ' '
    ||| c == '\u{85}'
    ||| c == '\u{A0}'
    ||| c == '\u{1680}'
    ||| ('\u{2000}' <= c && c <= '\u{200A}')
    ||| c == '\u{2028}'
    ||| c == '\u{2029}'
    ||| c == '\u{202F}'
    ||| c == '\u{205F}'
    ||| c == '\u{3000}'
}

/// The first position at or after `from` at which `s` holds `c`, or the
/// length of `s` where there is none.
pub open spec fn find(s: Seq<char>, c: char, from: int) -> int
    decreases s.len() - from,
{
    if from < 0 || from >= s.len() {
        s.len() as int
    } else if s[from] == c {
        from
    } else {
        find(s, c, from + 1)
    }
}

/// The first position at or after `from` that holds no white space.
pub open spec fn skip_space(s: Seq<char>, from: int) -> int
    decreases s.len() - from,
{
    if 0 <= from < s.len() && is_whitespace(s[from]) {
        skip_space(s, from + 1)
    } else {
        from
    }
}

/// The end of the last stretch before `to` that holds no white space.
pub open spec fn back_space(s: Seq<char>, to: int) -> int
    decreases to,
{
    if 0 < to <= s.len() && is_whitespace(s[to - 1]) {
        back_space(s, to - 1)
    } else {
        to
    }
}

/// `s` without its leading and trailing white space.
pub open spec fn trimmed(s: Seq<char>) -> Seq<char> {
    let from = skip_space(s, 0);
    let to = back_space(s, s.len() as int);
    if from < to {
        s.subrange(from, to)
    } else {
        Seq::empty()
    }
}

/// A line without the carriage return that may end it.
pub open spec fn without_cr(line: Seq<char>) -> Seq<char> {
    if line.len() > 0 && line.last() == '\r' {
        line.drop_last()
    } else {
        line
    }
}

/// The lines of `s` from position `from` on.
pub open spec fn lines_from(s: Seq<char>, from: int) -> Seq<Seq<char>>
    decreases s.len() - from,
{
    if from < 0 || from >= s.len() {
        Seq::empty()
    } else {
        let end = find(s, '\n', from);
        proof {
            lemma_find_bounds(s, '\n', from);
        }
        if end >= s.len() {
            seq![s.subrange(from, s.len() as int)]
        } else {
            seq![without_cr(s.subrange(from, end))] + lines_from(s, end + 1)
        }
    }
}

/// The lines of a text. A line ends at a line feed, or at a carriage return
/// directly followed by one; neither belongs to the line. The last line
/// needs no line ending, and a line ending at the very end of the text
/// opens no further, empty line.
pub open spec fn lines_of(s: Seq<char>) -> Seq<Seq<char>> {
    lines_from(s, 0)
}

/// The lines joined into one text, with a line feed between each two of
/// them and none at the end.
pub open spec fn joined(lines: Seq<Seq<char>>) -> Seq<char>
    decreases lines.len(),
{
    if lines.len() == 0 {
        Seq::empty()
    } else if lines.len() == 1 {
        lines[0]
    } else {
        joined(lines.drop_last()) + seq!['\n'] + lines.last()
    }
}

/// A text that reads back as it was written: it does not end in a line
/// feed, and no line feed in it follows a carriage return.
pub open spec fn plainly_separated(s: Seq<char>) -> bool {
    &&& s.len() > 0 ==> s.last() != '\n'
    &&& forall|i: int| 0 < i < s.len() && #[trigger] s[i] == '\n' ==> s[i - 1] != '\r'
}

/// `find` stays within the text and lands on the character it looks for.
pub proof fn lemma_find_bounds(s: Seq<char>, c: char, from: int)
    requires
        0 <= from,
    ensures
        from <= s.len() ==> from <= find(s, c, from) <= s.len(),
        find(s, c, from) < s.len() ==> s[find(s, c, from)] == c,
        forall|i: int| from <= i < find(s, c, from) ==> s[i] != c,
    decreases s.len() - from,
{
    if from < s.len() && s[from] != c {
        lemma_find_bounds(s, c, from + 1);
    }
}

/// Joining a first line and further lines puts a line feed between them.
pub proof fn lemma_joined_prepend(first: Seq<char>, rest: Seq<Seq<char>>)
    ensures
        joined(seq![first] + rest) == if rest.len() == 0 {
            first
        } else {
            first + seq!['\n'] + joined(rest)
        },
    decreases rest.len(),
{
    let all = seq![first] + rest;
    if rest.len() == 0 {
        assert(all =~= seq![first]);
    } else if rest.len() == 1 {
        assert(all.drop_last() =~= seq![first]);
        assert(joined(all.drop_last()) == first);
        assert(all.last() == rest[0]);
    } else {
        lemma_joined_prepend(first, rest.drop_last());
        assert(all.drop_last() =~= seq![first] + rest.drop_last());
        assert(all.last() == rest.last());
        assert(joined(all) =~= first + seq!['\n'] + joined(rest));
    }
}

/// From any position on, the lines of a plainly separated text join back
/// into the rest of the text.
pub proof fn lemma_lines_join_back(s: Seq<char>, from: int)
    requires
        plainly_separated(s),
        0 <= from <= s.len(),
    ensures
        joined(lines_from(s, from)) == s.subrange(from, s.len() as int),
    decreases s.len() - from,
{
    let len = s.len() as int;
    if from >= len {
        assert(s.subrange(from, len) =~= Seq::<char>::empty());
    } else {
        let end = find(s, '\n', from);
        lemma_find_bounds(s, '\n', from);
        if end < len {
            let line = s.subrange(from, end);
            assert(without_cr(line) == line) by {
                if line.len() > 0 {
                    assert(line.last() == s[end - 1]);
                }
            }
            assert(end + 1 < len);
            lemma_lines_join_back(s, end + 1);
            let rest = lines_from(s, end + 1);
            lemma_find_bounds(s, '\n', end + 1);
            assert(rest.len() > 0);
            lemma_joined_prepend(line, rest);
            assert(line + seq!['\n'] + s.subrange(end + 1, len) =~= s.subrange(from, len));
        }
    }
}

/// Splitting a plainly separated text into lines and joining them again
/// gives the text back.
pub proof fn lemma_split_then_join(s: Seq<char>)
    requires
        plainly_separated(s),
    ensures
        joined(lines_of(s)) == s,
{
    lemma_lines_join_back(s, 0);
    assert(s.subrange(0, s.len() as int) =~= s);
}

/// Appends one character to a string, through `String::push` of the
/// standard library. The contract claims what its documentation says: the
/// character is added at the end and nothing else changes.
#[verifier::external_body]
pub(crate) fn push_char(out: &mut String, c: char)
    ensures
        final(out)@ == old(out)@.push(c),
{
    out.push(c);
}

/// The characters of a string, in order.
pub fn chars_of(text: &str) -> (result: Vec<char>)
    ensures
        result@ == text@,
{
    let mut out: Vec<char> = Vec::new();
    for c in it: text.chars()
        invariant
            out@ == it.seq().take(it.index()),
            it.seq() == text@,
    {
        out.push(c);
    }
    out
}

/// The string made of the characters at positions `from..to`.
pub fn string_of(chars: &Vec<char>, from: usize, to: usize) -> (result: String)
    requires
        from <= to <= chars@.len(),
    ensures
        result@ == chars@.subrange(from as int, to as int),
{
    let mut out = String::new();
    let mut i: usize = from;
    while i < to
        invariant
            from <= i <= to <= chars@.len(),
            out@ == chars@.subrange(from as int, i as int),
        decreases to - i,
    {
        push_char(&mut out, chars[i]);
        i += 1;
    }
    out
}

/// Tells whether a character is white space.
pub fn is_space(c: char) -> (result: bool)
    ensures
        result == is_whitespace(c),
{
    ('\u{9}' <= c && c <= '\u{D}') || c == ' ' || c == '\u{85}' || c == '\u{A0}' || c
        == '\u{1680}' || ('\u{2000}' <= c && c <= '\u{200A}') || c == '\u{2028}' || c
        == '\u{2029}' || c == '\u{202F}' || c == '\u{205F}' || c == '\u{3000}'
}

/// Finds the first `c` at or after `from`.
pub fn find_char(chars: &Vec<char>, c: char, from: usize) -> (result: usize)
    requires
        from <= chars@.len(),
    ensures
        result == find(chars@, c, from as int),
        from <= result <= chars@.len(),
{
    let mut i: usize = from;
    while i < chars.len() && chars[i] != c
        invariant
            from <= i <= chars@.len(),
            find(chars@, c, from as int) == find(chars@, c, i as int),
        decreases chars@.len() - i,
    {
        i += 1;
    }
    i
}

/// The positions between which the text lies once its leading and trailing
/// white space is set aside: the first position that holds no white space,
/// and the end of the last stretch that holds none. Where the text is white
/// space throughout, both are its length.
pub fn trim_bounds(chars: &Vec<char>) -> (result: (usize, usize))
    ensures
        result.0 <= result.1 <= chars@.len(),
        result.0 == skip_space(chars@, 0),
        result.1 == if back_space(chars@, chars@.len() as int) > result.0 {
            back_space(chars@, chars@.len() as int)
        } else {
            result.0 as int
        },
        chars@.subrange(result.0 as int, result.1 as int) == trimmed(chars@),
{
    let n = chars.len();
    let mut from: usize = 0;
    while from < n && is_space(chars[from])
        invariant
            from <= n == chars@.len(),
            skip_space(chars@, 0) == skip_space(chars@, from as int),
        decreases n - from,
    {
        from += 1;
    }
    let mut to: usize = n;
    while to > from && is_space(chars[to - 1])
        invariant
            from <= to <= n == chars@.len(),
            back_space(chars@, n as int) == back_space(chars@, to as int),
            from == n || !is_whitespace(chars@[from as int]),
        decreases to,
    {
        to -= 1;
    }
    proof {
        if from == to {
            lemma_back_space_at_most(chars@, to as int);
            assert(chars@.subrange(from as int, to as int) =~= Seq::<char>::empty());
        }
    }
    (from, to)
}

/// The backward scan never moves forward.
proof fn lemma_back_space_at_most(s: Seq<char>, to: int)
    ensures
        back_space(s, to) <= to,
    decreases to,
{
    if 0 < to <= s.len() && is_whitespace(s[to - 1]) {
        lemma_back_space_at_most(s, to - 1);
    }
}

/// A text without its leading and trailing white space.
pub fn trim(text: &str) -> (result: String)
    ensures
        result@ == trimmed(text@),
{
    let chars = chars_of(text);
    let (from, to) = trim_bounds(&chars);
    string_of(&chars, from, to)
}

/// Splits a text into its lines.
pub fn split_lines(text: &str) -> (result: Vec<String>)
    ensures
        texts(result@) == lines_of(text@),
{
    let chars = chars_of(text);
    let n = chars.len();
    let mut out: Vec<String> = Vec::new();
    let mut from: usize = 0;
    proof {
        assert(texts(out@) =~= Seq::<Seq<char>>::empty());
    }
    while from < n
        invariant
            from <= n == chars@.len(),
            chars@ == text@,
            lines_of(text@) == texts(out@) + lines_from(chars@, from as int),
        decreases n - from,
    {
        let end = find_char(&chars, '\n', from);
        let ghost before = out@;
        if end >= n {
            let line = string_of(&chars, from, n);
            out.push(line);
            proof {
                assert(texts(out@) =~= texts(before).push(line@));
                assert(lines_from(chars@, n as int) =~= Seq::<Seq<char>>::empty());
                assert(texts(out@) + lines_from(chars@, n as int) =~= texts(before) + lines_from(
                    chars@,
                    from as int,
                ));
            }
            from = n;
        } else {
            let mut stop = end;
            if stop > from && chars[stop - 1] == '\r' {
                stop = stop - 1;
            }
            let line = string_of(&chars, from, stop);
            out.push(line);
            proof {
                let whole = chars@.subrange(from as int, end as int);
                assert(line@ =~= without_cr(whole)) by {
                    if whole.len() > 0 {
                        assert(whole.last() == chars@[end - 1]);
                    }
                }
                assert(texts(out@) =~= texts(before).push(line@));
                assert(texts(out@) + lines_from(chars@, end + 1) =~= texts(before) + lines_from(
                    chars@,
                    from as int,
                ));
            }
            from = end + 1;
        }
    }
    proof {
        assert(lines_from(chars@, from as int) =~= Seq::<Seq<char>>::empty());
        assert(texts(out@) + Seq::<Seq<char>>::empty() =~= texts(out@));
    }
    out
}

/// Joins lines into one text, a line feed between each two of them.
pub fn join_lines(lines: &Vec<String>) -> (result: String)
    ensures
        result@ == joined(texts(lines@)),
{
    let mut out = String::new();
    let mut i: usize = 0;
    while i < lines.len()
        invariant
            i <= lines@.len(),
            out@ == joined(texts(lines@).take(i as int)),
        decreases lines@.len() - i,
    {
        let ghost before = texts(lines@).take(i as int);
        let ghost after = texts(lines@).take(i + 1);
        proof {
            assert(after.drop_last() =~= before);
            assert(after.last() == lines@[i as int]@);
        }
        if i > 0 {
            push_char(&mut out, '\n');
        }
        out.append(lines[i].as_str());
        proof {
            if i == 0 {
                assert(before.len() == 0);
                assert(out@ =~= lines@[0]@);
            } else {
                assert(out@ =~= joined(before) + seq!['\n'] + after.last());
            }
        }
        i += 1;
    }
    proof {
        assert(texts(lines@).take(lines@.len() as int) =~= texts(lines@));
    }
    out
}

} // verus!
