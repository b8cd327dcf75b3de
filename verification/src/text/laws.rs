//! What cutting, comparing and writing text comes to, whatever the text.
use super::number::{
    all_digits, decimal, digit, digits_value, is_digit, lemma_decimal_value, parse_u16,
    to_decimal,
};
use super::order::{
    before, lemma_before_irreflexive, lemma_before_total, lemma_before_transitive, stands_before,
};
use super::split::{
    after_last, before_first, is_white_space, lemma_behind_last, lemma_behind_last_none,
    lemma_run_until, lines, lines_of, pieces, replace_char, run_until, split_on, trim,
    trim_line_breaks_at_end, trimmed, trimmed_end, trimmed_start, views, white_space,
    without_line_breaks_at_end,
};
use super::{
    ascii_lower, ascii_lowercase, chars_of, concat2, concat3, concat4, concat5, contains_char,
    contains_text, eq_ignore_ascii_case, has_prefix, occurs_at, same_text, text_between,
    to_ascii_lowercase,
};
use vstd::prelude::*;

verus! {

// ---------------------------------------------------------------------------------------------
// White space and line breaks at the ends
// ---------------------------------------------------------------------------------------------

/// White space is tab to carriage return, the space, and the blanks of Unicode; no letter, digit or
/// sign is.
pub proof fn law_white_space(c: char)
    ensures
        white_space(c) <==> {
            let n = c as u32;
            ||| 9 <= n <= 13
            ||| n == 32
            ||| n == 133
            ||| n == 160
            ||| n == 5760
            ||| 8192 <= n <= 8202
            ||| n == 8232
            ||| n == 8233
            ||| n == 8239
            ||| n == 8287
            ||| n == 12288
        },
{
}

/// A text is the part of another from one place to another, with nothing but white space around it
/// and none at its two ends.
pub open spec fn is_middle(s: Seq<char>, inner: Seq<char>, from: int, to: int) -> bool {
    &&& 0 <= from <= to <= s.len()
    &&& inner == s.subrange(from, to)
    &&& forall|i: int| 0 <= i < from ==> white_space(#[trigger] s[i])
    &&& forall|i: int| to <= i < s.len() ==> white_space(#[trigger] s[i])
    &&& from < to ==> !white_space(s[from]) && !white_space(s[to - 1])
}

proof fn lemma_trimmed_start(s: Seq<char>) -> (from: int)
    ensures
        0 <= from <= s.len(),
        trimmed_start(s) == s.skip(from),
        forall|i: int| 0 <= i < from ==> white_space(#[trigger] s[i]),
        from < s.len() ==> !white_space(s[from]),
    decreases s.len(),
{
    if s.len() > 0 && white_space(s[0]) {
        let rest = s.skip(1);
        let k = lemma_trimmed_start(rest);
        assert(rest.skip(k) =~= s.skip(k + 1));
        assert forall|i: int| 0 <= i < k + 1 implies white_space(#[trigger] s[i]) by {
            if i > 0 {
                assert(s[i] == rest[i - 1]);
            }
        }
        k + 1
    } else {
        assert(s.skip(0) =~= s);
        0
    }
}

proof fn lemma_trimmed_end(s: Seq<char>) -> (to: int)
    ensures
        0 <= to <= s.len(),
        trimmed_end(s) == s.take(to),
        forall|i: int| to <= i < s.len() ==> white_space(#[trigger] s[i]),
        to > 0 ==> !white_space(s[to - 1]),
    decreases s.len(),
{
    if s.len() > 0 && white_space(s.last()) {
        let rest = s.drop_last();
        let k = lemma_trimmed_end(rest);
        assert(rest.take(k) =~= s.take(k));
        assert forall|i: int| k <= i < s.len() implies white_space(#[trigger] s[i]) by {
            if i < rest.len() {
                assert(s[i] == rest[i]);
            }
        }
        k
    } else {
        assert(s.take(s.len() as int) =~= s);
        s.len() as int
    }
}

pub(crate) proof fn lemma_trimmed(s: Seq<char>) -> (ends: (int, int))
    ensures
        is_middle(s, trimmed(s), ends.0, ends.1),
{
    let from = lemma_trimmed_start(s);
    let rest = s.skip(from);
    let k = lemma_trimmed_end(rest);
    let to = from + k;
    assert(rest.take(k) =~= s.subrange(from, to));
    assert forall|i: int| to <= i < s.len() implies white_space(#[trigger] s[i]) by {
        assert(s[i] == rest[i - from]);
    }
    if from < to {
        assert(rest[k - 1] == s[to - 1]);
    }
    (from, to)
}

/// What is left of a text once it is trimmed stands in it as it was: only white space around it is
/// gone, and all of that.
pub proof fn law_trim_takes_the_white_space_around(s: &str, inner: String)
    requires
        call_ensures(trim, (s,), inner),
    ensures
        exists|from: int, to: int| is_middle(s@, inner@, from, to),
{
    let (from, to) = lemma_trimmed(s@);
    assert(is_middle(s@, inner@, from, to));
}

/// Of a line, only carriage returns and line feeds at its end are dropped, and all of those.
pub proof fn law_line_breaks_at_the_end_go(s: &str, inner: String)
    requires
        call_ensures(trim_line_breaks_at_end, (s,), inner),
    ensures
        inner@.len() <= s@.len(),
        inner@ == s@.take(inner@.len() as int),
        forall|i: int|
            inner@.len() <= i < s@.len() ==> (#[trigger] s@[i]) == '\r' || s@[i] == '\n',
        inner@.len() > 0 ==> inner@.last() != '\r' && inner@.last() != '\n',
{
    lemma_without_line_breaks(s@);
}

pub(crate) proof fn lemma_without_line_breaks(s: Seq<char>)
    ensures
        ({
            let inner = without_line_breaks_at_end(s);
            &&& inner.len() <= s.len()
            &&& inner == s.take(inner.len() as int)
            &&& forall|i: int|
                inner.len() <= i < s.len() ==> (#[trigger] s[i]) == '\r' || s[i] == '\n'
            &&& inner.len() > 0 ==> inner.last() != '\r' && inner.last() != '\n'
        }),
    decreases s.len(),
{
    if s.len() > 0 && (s.last() == '\r' || s.last() == '\n') {
        let rest = s.drop_last();
        lemma_without_line_breaks(rest);
        let n = without_line_breaks_at_end(s).len() as int;
        assert(rest.take(n) =~= s.take(n));
        assert forall|i: int| n <= i < s.len() implies (#[trigger] s[i]) == '\r' || s[i]
            == '\n' by {
            if i < rest.len() {
                assert(s[i] == rest[i]);
            }
        }
    } else {
        assert(s.take(s.len() as int) =~= s);
    }
}

// ---------------------------------------------------------------------------------------------
// Separators
// ---------------------------------------------------------------------------------------------

/// Texts one after the other, with a separator between them.
pub open spec fn joined(parts: Seq<Seq<char>>, c: char) -> Seq<char>
    decreases parts.len(),
{
    if parts.len() == 0 {
        Seq::empty()
    } else if parts.len() == 1 {
        parts[0]
    } else {
        parts[0].push(c) + joined(parts.skip(1), c)
    }
}

proof fn lemma_run(s: Seq<char>, c: char)
    ensures
        0 <= run_until(s, c) <= s.len(),
        forall|i: int| 0 <= i < run_until(s, c) ==> s[i] != c,
        run_until(s, c) < s.len() ==> s[run_until(s, c)] == c,
    decreases s.len(),
{
    if s.len() > 0 && s[0] != c {
        let rest = s.skip(1);
        lemma_run(rest, c);
        assert forall|i: int| 0 <= i < run_until(s, c) implies s[i] != c by {
            if i > 0 {
                assert(s[i] == rest[i - 1]);
            }
        }
        if run_until(s, c) < s.len() {
            assert(s[run_until(s, c)] == rest[run_until(rest, c)]);
        }
    }
}

proof fn lemma_pieces(s: Seq<char>, c: char)
    ensures
        pieces(s, c).len() > 0,
        joined(pieces(s, c), c) == s,
        forall|i: int|
            0 <= i < pieces(s, c).len() ==> !(#[trigger] pieces(s, c)[i]).contains(c),
    decreases s.len(),
{
    lemma_run(s, c);
    let n = run_until(s, c);
    let all = pieces(s, c);
    if n < s.len() {
        let rest = s.skip(n + 1);
        lemma_pieces(rest, c);
        assert(all.skip(1) =~= pieces(rest, c));
        assert(s.take(n).push(c) + rest =~= s);
        assert forall|i: int| 0 <= i < all.len() implies !(#[trigger] all[i]).contains(c) by {
            if i > 0 {
                assert(all[i] == pieces(rest, c)[i - 1]);
            } else {
                assert(all[0] == s.take(n));
            }
        }
    } else {
        assert(all[0] == s);
    }
}

/// The pieces of a text, put together with the separator between them, are the text, and the
/// separator stands in none of them.
pub proof fn law_pieces_make_up_the_text(s: &str, c: char, parts: Vec<String>)
    requires
        call_ensures(split_on, (s, c), parts),
    ensures
        parts@.len() > 0,
        joined(views(parts@), c) == s@,
        forall|i: int| 0 <= i < parts@.len() ==> !(#[trigger] parts@[i])@.contains(c),
{
    lemma_pieces(s@, c);
    assert forall|i: int| 0 <= i < parts@.len() implies !(#[trigger] parts@[i])@.contains(c) by {
        assert(views(parts@)[i] == parts@[i]@);
    }
}

/// What stands before the first separator is all of the text up to it, and there is none in it.
pub proof fn law_before_the_first(s: &str, c: char, part: String)
    requires
        call_ensures(before_first, (s, c), part),
    ensures
        !part@.contains(c),
        part@ == s@ || exists|rest: Seq<char>| s@ == #[trigger] (part@.push(c) + rest),
{
    lemma_run(s@, c);
    let n = run_until(s@, c);
    if n < s@.len() {
        assert(s@ =~= part@.push(c) + s@.skip(n + 1));
    } else {
        assert(part@ =~= s@);
    }
}

/// What stands behind the last separator is all of the text from it on, and there is none in it.
/// There is nothing behind it only where the separator does not occur.
pub proof fn law_behind_the_last(s: &str, c: char, part: Option<String>)
    requires
        call_ensures(after_last, (s, c), part),
    ensures
        part is None <==> !s@.contains(c),
        part is Some ==> !part->0@.contains(c) && exists|front: Seq<char>|
            s@ == #[trigger] (front.push(c) + part->0@),
{
    if s@.contains(c) {
        let at = lemma_last_place(s@, c);
        lemma_behind_last(s@, c, at);
        let tail = s@.skip(at + 1);
        assert(!tail.contains(c)) by {
            if tail.contains(c) {
                let k = choose|k: int| 0 <= k < tail.len() && tail[k] == c;
                assert(s@[at + 1 + k] == c);
            }
        }
        assert(s@ =~= s@.take(at).push(c) + tail);
    } else {
        lemma_behind_last_none(s@, c);
    }
}

proof fn lemma_last_place(s: Seq<char>, c: char) -> (at: int)
    requires
        s.contains(c),
    ensures
        0 <= at < s.len(),
        s[at] == c,
        forall|i: int| at < i < s.len() ==> s[i] != c,
    decreases s.len(),
{
    if s.last() == c {
        s.len() - 1
    } else {
        let rest = s.drop_last();
        let k = choose|k: int| 0 <= k < s.len() && s[k] == c;
        assert(rest[k] == c);
        let at = lemma_last_place(rest, c);
        assert forall|i: int| at < i < s.len() implies s[i] != c by {
            if i < rest.len() {
                assert(s[i] == rest[i]);
            }
        }
        at
    }
}

/// Replacing a character changes where it stands, and nothing else.
pub proof fn law_replacing_changes_one_character(s: &str, from: char, to: char, text: String)
    requires
        call_ensures(replace_char, (s, from, to), text),
    ensures
        text@.len() == s@.len(),
        forall|i: int|
            0 <= i < s@.len() ==> #[trigger] text@[i] == if s@[i] == from {
                to
            } else {
                s@[i]
            },
{
}

// ---------------------------------------------------------------------------------------------
// Lines
// ---------------------------------------------------------------------------------------------

/// A text is a line, what ends it, and the lines behind that: the first line is what stands before
/// the first line feed, without one carriage return before that.
pub proof fn law_first_line(line: Seq<char>, rest: Seq<char>)
    requires
        !line.contains('\n'),
    ensures
        line.len() == 0 || line.last() != '\r' ==> lines_of(line.push('\n') + rest) == seq![line]
            + lines_of(rest),
        lines_of(line.push('\r').push('\n') + rest) == seq![line] + lines_of(rest),
        line.len() > 0 ==> lines_of(line) == seq![line],
        lines_of(Seq::empty()).len() == 0,
{
    let unix = line.push('\n') + rest;
    let n = line.len() as int;
    assert forall|i: int| 0 <= i < n implies line[i] != '\n' by {}
    lemma_run_until(unix, '\n', n);
    assert(unix.take(n) =~= line);
    assert(unix.skip(n + 1) =~= rest);
    let dos = line.push('\r').push('\n') + rest;
    assert forall|i: int| 0 <= i < n + 1 implies dos[i] != '\n' by {
        if i < n {
            assert(dos[i] == line[i]);
        }
    }
    lemma_run_until(dos, '\n', n + 1);
    assert(dos.take(n + 1) =~= line.push('\r'));
    assert(line.push('\r').drop_last() =~= line);
    assert(dos.skip(n + 2) =~= rest);
    lemma_run_until(line, '\n', n);
}

/// The lines of a text that begins with a line, and of the rest, as they are handed out.
pub proof fn law_lines_are_handed_out(s: &str, parts: Vec<String>, line: Seq<char>, rest: Seq<char>)
    requires
        call_ensures(lines, (s,), parts),
        !line.contains('\n'),
        line.len() == 0 || line.last() != '\r',
        s@ == line.push('\n') + rest,
    ensures
        parts@.len() > 0,
        parts@[0]@ == line,
        views(parts@).skip(1) == lines_of(rest),
{
    law_first_line(line, rest);
    assert(views(parts@).len() == parts@.len());
    assert(views(parts@)[0] == parts@[0]@);
    assert((seq![line] + lines_of(rest)).skip(1) =~= lines_of(rest));
}

// ---------------------------------------------------------------------------------------------
// Comparing
// ---------------------------------------------------------------------------------------------

/// A text is found in another exactly where the other is something, then it, then something.
pub proof fn law_found_text_stands_in_the_other(s: &str, needle: &str, found: bool)
    requires
        call_ensures(contains_text, (s, needle), found),
    ensures
        found <==> exists|front: Seq<char>, back: Seq<char>|
            s@ == #[trigger] (front + needle@ + back),
{
    if found {
        let at = choose|at: int| occurs_at(s@, needle@, at);
        let n = needle@.len() as int;
        assert(s@ =~= s@.take(at) + needle@ + s@.skip(at + n));
    }
    if exists|front: Seq<char>, back: Seq<char>| s@ == #[trigger] (front + needle@ + back) {
        let (front, back) = choose|front: Seq<char>, back: Seq<char>|
            s@ == #[trigger] (front + needle@ + back);
        assert(s@.subrange(front.len() as int, (front.len() + needle@.len()) as int) =~= needle@);
        assert(occurs_at(s@, needle@, front.len() as int));
    }
}

/// A text begins with another exactly where it is the other, then something.
pub proof fn law_prefix_comes_first(s: &str, prefix: &str, found: bool)
    requires
        call_ensures(has_prefix, (s, prefix), found),
    ensures
        found <==> exists|back: Seq<char>| s@ == #[trigger] (prefix@ + back),
{
    let n = prefix@.len() as int;
    if found {
        assert(s@.subrange(0, n) == prefix@);
        assert(s@ =~= prefix@ + s@.skip(n));
    }
    if exists|back: Seq<char>| s@ == #[trigger] (prefix@ + back) {
        assert(s@.subrange(0, n) =~= prefix@);
    }
}

/// Two texts are the same where they have the same characters in the same places.
pub proof fn law_same_texts_agree(a: &str, b: &str, same: bool)
    requires
        call_ensures(same_text, (a, b), same),
    ensures
        same <==> a@.len() == b@.len() && forall|i: int|
            0 <= i < a@.len() ==> a@[i] == #[trigger] b@[i],
{
    if a@.len() == b@.len() && forall|i: int| 0 <= i < a@.len() ==> a@[i] == #[trigger] b@[i] {
        assert(a@ =~= b@);
    }
}

/// A character is found where it stands.
pub proof fn law_found_character_stands_there(s: &str, c: char, found: bool)
    requires
        call_ensures(contains_char, (s, c), found),
    ensures
        found <==> exists|i: int| 0 <= i < s@.len() && #[trigger] s@[i] == c,
{
}

/// In lowercase, `A` to `Z` are `a` to `z`, and every other character is as it was.
pub proof fn law_ascii_lowercase(s: &str, lower: String, i: int)
    requires
        call_ensures(to_ascii_lowercase, (s,), lower),
        0 <= i < s@.len(),
    ensures
        lower@.len() == s@.len(),
        ({
            let n = s@[i] as u32;
            lower@[i] as u32 == if 65 <= n <= 90 {
                n + 32
            } else {
                n as int
            }
        }),
{
    assert(lower@[i] == ascii_lower(s@[i]));
}

/// Texts that differ at most in the case of the letters `A` to `Z` are the same but for case, and no
/// others are.
pub proof fn law_same_but_for_case(a: &str, b: &str, same: bool)
    requires
        call_ensures(eq_ignore_ascii_case, (a, b), same),
    ensures
        a@ == b@ ==> same,
        same ==> a@.len() == b@.len(),
        same ==> forall|i: int|
            0 <= i < a@.len() && a@[i] != #[trigger] b@[i] ==> {
                let (x, y) = (a@[i] as u32, b@[i] as u32);
                ||| 65 <= x <= 90 && y == x + 32
                ||| 65 <= y <= 90 && x == y + 32
            },
        a@.len() == b@.len() && (forall|i: int|
            0 <= i < a@.len() && a@[i] != #[trigger] b@[i] ==> {
                let (x, y) = (a@[i] as u32, b@[i] as u32);
                ||| 65 <= x <= 90 && y == x + 32
                ||| 65 <= y <= 90 && x == y + 32
            }) ==> same,
{
    let la = ascii_lowercase(a@);
    let lb = ascii_lowercase(b@);
    if same {
        assert(la.len() == lb.len());
        assert forall|i: int| 0 <= i < a@.len() && a@[i] != #[trigger] b@[i] implies {
            let (x, y) = (a@[i] as u32, b@[i] as u32);
            ||| 65 <= x <= 90 && y == x + 32
            ||| 65 <= y <= 90 && x == y + 32
        } by {
            assert(la[i] == ascii_lower(a@[i]) && lb[i] == ascii_lower(b@[i]));
            assert(la[i] == lb[i]);
        }
    }
    if a@.len() == b@.len() && (forall|i: int|
        0 <= i < a@.len() && a@[i] != #[trigger] b@[i] ==> {
            let (x, y) = (a@[i] as u32, b@[i] as u32);
            ||| 65 <= x <= 90 && y == x + 32
            ||| 65 <= y <= 90 && x == y + 32
        }) {
        assert forall|i: int| 0 <= i < la.len() implies la[i] == lb[i] by {
            if a@[i] != b@[i] {
                assert(la[i] == ascii_lower(a@[i]) && lb[i] == ascii_lower(b@[i]));
            }
        }
        assert(la =~= lb);
    }
}

proof fn lemma_before_after_prefix(p: Seq<char>, a: Seq<char>, b: Seq<char>)
    ensures
        before(p + a, p + b) == before(a, b),
    decreases p.len(),
{
    if p.len() == 0 {
        assert(p + a =~= a);
        assert(p + b =~= b);
    } else {
        lemma_before_after_prefix(p.skip(1), a, b);
        assert((p + a).skip(1) =~= p.skip(1) + a);
        assert((p + b).skip(1) =~= p.skip(1) + b);
    }
}

/// Where two texts part, the one with the smaller character stands first; a text stands before
/// whatever continues it, and not before itself.
pub proof fn law_order_of_texts(p: Seq<char>, x: char, y: char, a: Seq<char>, b: Seq<char>)
    requires
        x < y,
    ensures
        before(p.push(x) + a, p.push(y) + b),
        !before(p.push(y) + b, p.push(x) + a),
        before(p, p.push(x) + a),
        !before(p.push(x) + a, p),
        !before(p, p),
{
    lemma_before_after_prefix(p, seq![x] + a, seq![y] + b);
    lemma_before_after_prefix(p, seq![y] + b, seq![x] + a);
    lemma_before_after_prefix(p, Seq::empty(), seq![x] + a);
    lemma_before_after_prefix(p, seq![x] + a, Seq::empty());
    lemma_before_after_prefix(p, Seq::empty(), Seq::empty());
    assert(p + (seq![x] + a) =~= p.push(x) + a);
    assert(p + (seq![y] + b) =~= p.push(y) + b);
    assert(p + Seq::<char>::empty() =~= p);
}

/// Texts are put in their order.
pub proof fn law_texts_are_put_in_order(a: &str, b: &str, first: bool, second: bool)
    requires
        call_ensures(stands_before, (a, b), first),
        call_ensures(stands_before, (b, a), second),
    ensures
        first == before(a@, b@),
        !(first && second),
        !first && !second <==> a@ == b@,
{
    lemma_before_total(a@, b@);
    lemma_before_irreflexive(a@);
    if first && second {
        lemma_before_transitive(a@, b@, a@);
    }
}

/// A character is taken for white space exactly where it is.
pub proof fn law_white_space_is_recognised(c: char, white: bool)
    requires
        call_ensures(is_white_space, (c,), white),
    ensures
        white == white_space(c),
{
}

// ---------------------------------------------------------------------------------------------
// Numbers
// ---------------------------------------------------------------------------------------------

/// A number below ten is written with its digit.
pub proof fn law_digits(n: nat)
    requires
        n < 10,
    ensures
        decimal(n) == seq!["0123456789"@[n as int]],
{
    reveal_strlit("0123456789");
    assert(decimal(n) =~= seq!["0123456789"@[n as int]]);
}

/// The notation of ten times a number and a digit is that of the number, then the digit.
pub proof fn law_decimal_grows_by_a_digit(n: nat, d: nat)
    requires
        n > 0,
        d < 10,
    ensures
        decimal(10 * n + d) == decimal(n) + decimal(d),
{
    assert((10 * n + d) / 10 == n);
    assert((10 * n + d) % 10 == d);
    assert(decimal(10 * n + d) =~= decimal(n) + decimal(d));
}

/// A number is written in digits without a zero before them, and reads back as itself.
pub proof fn law_written_number_reads_back(n: u16, text: String, read: &str, number: Option<u16>)
    requires
        call_ensures(to_decimal, (n as u128,), text),
        call_ensures(parse_u16, (read,), number),
        read@ == text@ || read@ == seq!['+'] + text@,
    ensures
        number == Some(n),
        text@.len() > 1 ==> text@[0] != '0',
{
    lemma_decimal_value(n as nat);
    lemma_no_leading_zero(n as nat);
    assert(is_digit(text@[0]));
    if read@ == seq!['+'] + text@ {
        assert(read@.skip(1) =~= text@);
    }
}

proof fn lemma_no_leading_zero(n: nat)
    ensures
        decimal(n).len() > 0,
        n > 0 ==> decimal(n)[0] != '0',
        n == 0 ==> decimal(n).len() == 1,
    decreases n,
{
    if n >= 10 {
        lemma_no_leading_zero(n / 10);
    }
}

/// A text with anything in it but digits behind a first sign is no number; nor is a sign alone, nor
/// nothing.
pub proof fn law_other_texts_are_no_numbers(s: &str, number: Option<u16>, i: int)
    requires
        call_ensures(parse_u16, (s,), number),
        s@.len() == 0 || s@ == seq!['+'] || 0 <= i < s@.len() && !('0' <= s@[i] && s@[i] <= '9') && !(i
            == 0 && s@[0] == '+'),
    ensures
        number is None,
{
    if s@.len() > 0 && s@ != seq!['+'] {
        if s@[0] == '+' {
            assert(s@.skip(1)[i - 1] == s@[i]);
        }
    }
}

/// The number that a text of digits stands for is read from left to right, ten times what came
/// before and the next digit; beyond 65535 there is none.
pub proof fn law_number_of_digits(front: Seq<char>, d: nat, text: &str, number: Option<u16>)
    requires
        d < 10,
        front.len() == 0 || all_digits(front),
        call_ensures(parse_u16, (text,), number),
        text@ == front + decimal(d),
    ensures
        ({
            let n = 10 * digits_value(front) + d;
            number == if n <= 65535 {
                Some(n as u16)
            } else {
                None
            }
        }),
        digits_value(Seq::empty()) == 0,
{
    let c = digit(d);
    assert(decimal(d) =~= seq![c]);
    assert(text@ =~= front.push(c));
    assert(text@.drop_last() =~= front);
    assert(is_digit(c));
    assert forall|i: int| 0 <= i < text@.len() implies is_digit(#[trigger] text@[i]) by {
        if i < front.len() {
            assert(text@[i] == front[i]);
        }
    }
}

// ---------------------------------------------------------------------------------------------
// Putting together
// ---------------------------------------------------------------------------------------------

/// Texts that are put together stand one after the other, each as it is.
pub proof fn law_texts_are_put_together(
    a: &str,
    b: &str,
    c: &str,
    d: &str,
    e: &str,
    two: String,
    three: String,
    four: String,
    five: String,
)
    requires
        call_ensures(concat2, (a, b), two),
        call_ensures(concat3, (a, b, c), three),
        call_ensures(concat4, (a, b, c, d), four),
        call_ensures(concat5, (a, b, c, d, e), five),
    ensures
        two@ == a@ + b@,
        three@ == two@ + c@,
        four@ == three@ + d@,
        five@ == four@ + e@,
{
}

/// A text is its characters, and a part of it those between two places.
pub proof fn law_parts_of_a_text(
    s: &str,
    chars: Vec<char>,
    from: usize,
    to: usize,
    part: String,
    i: int,
)
    requires
        from <= to <= chars@.len(),
        call_ensures(chars_of, (s,), chars),
        call_ensures(text_between, (&chars, from, to), part),
    ensures
        chars@ == s@,
        part@.len() == to - from,
        0 <= i < part@.len() ==> part@[i] == s@[from + i],
{
}

}
