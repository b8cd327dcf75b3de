//! Cutting text: white space at the ends, lines, separators.
use crate::text::{chars_of, text_between};
use vstd::prelude::*;

verus! {

// ---------------------------------------------------------------------------------------------
// Trimming
// ---------------------------------------------------------------------------------------------

/// The character has the Unicode property `White_Space`.
pub open spec fn white_space(c: char) -> bool {
    ||| '\u{9}' <= c && c <= '\u{d}'
    ||| c == '\u{20}'
    ||| c == '\u{85}'
    ||| c == '\u{a0}'
    ||| c == '\u{1680}'
    ||| '\u{2000}' <= c && c <= '\u{200a}'
    ||| c == '\u{2028}'
    ||| c == '\u{2029}'
    ||| c == '\u{202f}'
    ||| c == '\u{205f}'
    ||| c == '\u{3000}'
}

/// Is the character white space?
pub fn is_white_space(c: char) -> (white: bool)
    ensures
        white == white_space(c),
{
    ('\u{9}' <= c && c <= '\u{d}') || c == '\u{20}' || c == '\u{85}' || c == '\u{a0}' || c
        == '\u{1680}' || ('\u{2000}' <= c && c <= '\u{200a}') || c == '\u{2028}' || c == '\u{2029}'
        || c == '\u{202f}' || c == '\u{205f}' || c == '\u{3000}'
}

/// The text without the white space at its start.
pub open spec fn trimmed_start(s: Seq<char>) -> Seq<char>
    decreases s.len(),
{
    if s.len() > 0 && white_space(s[0]) {
        trimmed_start(s.skip(1))
    } else {
        s
    }
}

/// The text without the white space at its end.
pub open spec fn trimmed_end(s: Seq<char>) -> Seq<char>
    decreases s.len(),
{
    if s.len() > 0 && white_space(s.last()) {
        trimmed_end(s.drop_last())
    } else {
        s
    }
}

/// The text without the white space at its two ends.
pub open spec fn trimmed(s: Seq<char>) -> Seq<char> {
    trimmed_end(trimmed_start(s))
}

/// The text without the white space at its two ends.
pub fn trim(s: &str) -> (inner: String)
    ensures
        inner@ == trimmed(s@),
{
    let chars = chars_of(s);
    let mut from: usize = 0;
    assert(s@.skip(0) =~= s@);
    while from < chars.len() && is_white_space(chars[from])
        invariant
            from <= chars@.len(),
            chars@ == s@,
            trimmed_start(s@) == trimmed_start(s@.skip(from as int)),
        decreases chars.len() - from,
    {
        assert(s@.skip(from as int).skip(1) =~= s@.skip(from + 1));
        from += 1;
    }
    let mut to: usize = chars.len();
    assert(s@.subrange(from as int, to as int) =~= s@.skip(from as int));
    while from < to && is_white_space(chars[to - 1])
        invariant
            from <= to <= chars@.len(),
            chars@ == s@,
            trimmed(s@) == trimmed_end(s@.subrange(from as int, to as int)),
        decreases to,
    {
        assert(s@.subrange(from as int, to as int).drop_last() =~= s@.subrange(
            from as int,
            to - 1,
        ));
        to -= 1;
    }
    text_between(&chars, from, to)
}

/// The text without the carriage returns and line feeds at its end.
pub open spec fn without_line_breaks_at_end(s: Seq<char>) -> Seq<char>
    decreases s.len(),
{
    if s.len() > 0 && (s.last() == '\r' || s.last() == '\n') {
        without_line_breaks_at_end(s.drop_last())
    } else {
        s
    }
}

/// The text without the carriage returns and line feeds at its end.
pub fn trim_line_breaks_at_end(s: &str) -> (inner: String)
    ensures
        inner@ == without_line_breaks_at_end(s@),
{
    let chars = chars_of(s);
    let mut to: usize = chars.len();
    assert(s@.subrange(0, to as int) =~= s@);
    while 0 < to && (chars[to - 1] == '\r' || chars[to - 1] == '\n')
        invariant
            to <= chars@.len(),
            chars@ == s@,
            without_line_breaks_at_end(s@) == without_line_breaks_at_end(
                s@.subrange(0, to as int),
            ),
        decreases to,
    {
        assert(s@.subrange(0, to as int).drop_last() =~= s@.subrange(0, to - 1));
        to -= 1;
    }
    text_between(&chars, 0, to)
}

// ---------------------------------------------------------------------------------------------
// Separators
// ---------------------------------------------------------------------------------------------

/// How many characters stand before the first `c`; all of them where there is no `c`.
pub open spec fn run_until(s: Seq<char>, c: char) -> int
    decreases s.len(),
{
    if s.len() == 0 || s[0] == c {
        0
    } else {
        1 + run_until(s.skip(1), c)
    }
}

/// A run ends where `c` first stands, or with the text.
pub proof fn lemma_run_until(s: Seq<char>, c: char, n: int)
    requires
        0 <= n <= s.len(),
        forall|i: int| 0 <= i < n ==> s[i] != c,
        n < s.len() ==> s[n] == c,
    ensures
        run_until(s, c) == n,
    decreases n,
{
    if n > 0 {
        assert(s[0] != c);
        let rest = s.skip(1);
        assert forall|i: int| 0 <= i < n - 1 implies rest[i] != c by {
            assert(rest[i] == s[i + 1]);
        }
        lemma_run_until(rest, c, n - 1);
    }
}

/// The first position at or after `from` where `c` stands; the length where there is none.
fn find_from(chars: &Vec<char>, from: usize, c: char) -> (at: usize)
    requires
        from <= chars@.len(),
    ensures
        from <= at <= chars@.len(),
        at == from + run_until(chars@.skip(from as int), c),
        at < chars@.len() ==> chars@[at as int] == c,
{
    let mut at: usize = from;
    while at < chars.len() && chars[at] != c
        invariant
            from <= at <= chars@.len(),
            forall|i: int| from <= i < at ==> chars@[i] != c,
        decreases chars.len() - at,
    {
        at += 1;
    }
    proof {
        lemma_run_until(chars@.skip(from as int), c, at - from);
    }
    at
}

/// The pieces of the text between the separators `c`; one piece where there is none.
pub open spec fn pieces(s: Seq<char>, c: char) -> Seq<Seq<char>>
    decreases s.len(),
{
    let n = run_until(s, c);
    if 0 <= n < s.len() {
        seq![s.take(n)] + pieces(s.skip(n + 1), c)
    } else {
        seq![s]
    }
}

/// The views of texts.
pub open spec fn views(texts: Seq<String>) -> Seq<Seq<char>> {
    texts.map_values(|t: String| t@)
}

/// The pieces of the text between the separators `c`.
pub fn split_on(s: &str, c: char) -> (parts: Vec<String>)
    ensures
        views(parts@) == pieces(s@, c),
{
    let chars = chars_of(s);
    let mut parts: Vec<String> = Vec::new();
    let mut from: usize = 0;
    assert(s@.skip(0) =~= s@);
    assert(views(parts@) + pieces(s@, c) =~= pieces(s@, c));
    loop
        invariant
            from <= chars@.len(),
            chars@ == s@,
            views(parts@) + pieces(s@.skip(from as int), c) == pieces(s@, c),
        decreases chars.len() - from,
    {
        let at = find_from(&chars, from, c);
        let ghost before = views(parts@);
        let ghost rest = s@.skip(from as int);
        parts.push(text_between(&chars, from, at));
        assert(views(parts@) =~= before.push(s@.subrange(from as int, at as int)));
        assert(s@.subrange(from as int, at as int) =~= rest.take(at - from));
        if at == chars.len() {
            assert(rest.take(at - from) =~= rest);
            assert(views(parts@) =~= before + seq![rest]);
            return parts;
        }
        assert(rest.skip(at - from + 1) =~= s@.skip(at + 1));
        assert(views(parts@) + pieces(s@.skip(at + 1), c) =~= before + (seq![rest.take(at - from)]
            + pieces(s@.skip(at + 1), c)));
        from = at + 1;
    }
}

/// The part of the text before the first `c`; all of it where there is none.
pub fn before_first(s: &str, c: char) -> (part: String)
    ensures
        part@ == s@.take(run_until(s@, c)),
{
    let chars = chars_of(s);
    let at = find_from(&chars, 0, c);
    assert(s@.skip(0) =~= s@);
    assert(s@.subrange(0, at as int) =~= s@.take(at as int));
    text_between(&chars, 0, at)
}

/// The part of the text behind the last `c`, where there is one.
pub open spec fn behind_last(s: Seq<char>, c: char) -> Option<Seq<char>>
    decreases s.len(),
{
    if s.len() == 0 {
        None
    } else if s.last() == c {
        Some(Seq::empty())
    } else {
        match behind_last(s.drop_last(), c) {
            Some(part) => Some(part.push(s.last())),
            None => None,
        }
    }
}

/// The part behind the last `c` begins where no later `c` follows.
pub proof fn lemma_behind_last(s: Seq<char>, c: char, at: int)
    requires
        0 <= at < s.len(),
        s[at] == c,
        forall|i: int| at < i < s.len() ==> s[i] != c,
    ensures
        behind_last(s, c) == Some(s.skip(at + 1)),
    decreases s.len(),
{
    if s.last() == c {
        assert(at == s.len() - 1);
        assert(s.skip(at + 1) =~= Seq::<char>::empty());
    } else {
        assert(at < s.len() - 1);
        lemma_behind_last(s.drop_last(), c, at);
        assert(s.drop_last().skip(at + 1).push(s.last()) =~= s.skip(at + 1));
    }
}

/// Without a `c` there is no part behind it.
pub proof fn lemma_behind_last_none(s: Seq<char>, c: char)
    requires
        forall|i: int| 0 <= i < s.len() ==> s[i] != c,
    ensures
        behind_last(s, c) is None,
    decreases s.len(),
{
    if s.len() > 0 {
        lemma_behind_last_none(s.drop_last(), c);
    }
}

/// The part of the text behind the last `c`, where there is one.
pub fn after_last(s: &str, c: char) -> (part: Option<String>)
    ensures
        match part {
            Some(text) => behind_last(s@, c) == Some(text@),
            None => behind_last(s@, c) is None,
        },
{
    let chars = chars_of(s);
    let mut at: usize = chars.len();
    while 0 < at
        invariant
            at <= chars@.len(),
            chars@ == s@,
            forall|i: int| at <= i < chars@.len() ==> chars@[i] != c,
        decreases at,
    {
        if chars[at - 1] == c {
            proof {
                lemma_behind_last(s@, c, at - 1);
                assert(s@.subrange(at as int, chars@.len() as int) =~= s@.skip(at as int));
            }
            return Some(text_between(&chars, at, chars.len()));
        }
        at -= 1;
    }
    proof {
        lemma_behind_last_none(s@, c);
    }
    None
}

/// The text with every `from` replaced by `to`.
pub open spec fn replaced(s: Seq<char>, from: char, to: char) -> Seq<char> {
    s.map_values(|c: char| if c == from { to } else { c })
}

/// The text with every `from` replaced by `to`.
pub fn replace_char(s: &str, from: char, to: char) -> (text: String)
    ensures
        text@ == replaced(s@, from, to),
{
    let chars = chars_of(s);
    let mut text = String::new();
    let mut i: usize = 0;
    while i < chars.len()
        invariant
            i <= chars@.len(),
            chars@ == s@,
            text@ == replaced(s@, from, to).take(i as int),
        decreases chars.len() - i,
    {
        if chars[i] == from {
            text.push(to);
        } else {
            text.push(chars[i]);
        }
        i += 1;
    }
    assert(replaced(s@, from, to).take(i as int) =~= replaced(s@, from, to));
    text
}

// ---------------------------------------------------------------------------------------------
// Lines
// ---------------------------------------------------------------------------------------------

/// A line as it stood before its line feed: without one carriage return at its end.
pub open spec fn without_return(line: Seq<char>) -> Seq<char> {
    if line.len() > 0 && line.last() == '\r' {
        line.drop_last()
    } else {
        line
    }
}

/// The lines of a text. A line ends with a line feed or with a carriage return and a line feed;
/// the last line may end with the text.
pub open spec fn lines_of(s: Seq<char>) -> Seq<Seq<char>>
    decreases s.len(),
{
    let n = run_until(s, '\n');
    if 0 <= n < s.len() {
        seq![without_return(s.take(n))] + lines_of(s.skip(n + 1))
    } else if s.len() > 0 {
        seq![s]
    } else {
        seq![]
    }
}

/// The lines of a text.
pub fn lines(s: &str) -> (parts: Vec<String>)
    ensures
        views(parts@) == lines_of(s@),
{
    let chars = chars_of(s);
    let mut parts: Vec<String> = Vec::new();
    let mut from: usize = 0;
    assert(s@.skip(0) =~= s@);
    assert(views(parts@) + lines_of(s@) =~= lines_of(s@));
    while from < chars.len()
        invariant
            from <= chars@.len(),
            chars@ == s@,
            views(parts@) + lines_of(s@.skip(from as int)) == lines_of(s@),
        decreases chars.len() - from,
    {
        let at = find_from(&chars, from, '\n');
        let ghost before = views(parts@);
        let ghost rest = s@.skip(from as int);
        assert(s@.subrange(from as int, at as int) =~= rest.take(at - from));
        if at == chars.len() {
            parts.push(text_between(&chars, from, at));
            assert(rest.take(at - from) =~= rest);
            assert(views(parts@) =~= before + seq![rest]);
            return parts;
        }
        let to: usize = if from < at && chars[at - 1] == '\r' {
            at - 1
        } else {
            at
        };
        parts.push(text_between(&chars, from, to));
        assert(s@.subrange(from as int, to as int) =~= without_return(rest.take(at - from)));
        assert(views(parts@) =~= before.push(without_return(rest.take(at - from))));
        assert(rest.skip(at - from + 1) =~= s@.skip(at + 1));
        assert(views(parts@) + lines_of(s@.skip(at + 1)) =~= before + (seq![
            without_return(rest.take(at - from)),
        ] + lines_of(s@.skip(at + 1))));
        from = at + 1;
    }
    assert(s@.skip(from as int) =~= Seq::<char>::empty());
    assert(lines_of(s@.skip(from as int)) =~= Seq::<Seq<char>>::empty());
    assert(views(parts@) =~= views(parts@) + lines_of(s@.skip(from as int)));
    parts
}

}
