//! Text as lines and words: splitting and joining, replacing, and the
//! length in bytes.

use crate::text::{
    is_at, lemma_span, lemma_span_is, lemma_span_shift, matches_at, push_all, skip_run, span,
    CharSet,
};
use crate::ansi::{
    lemma_no_escape_part, lemma_shows_concat, lemma_shows_text, no_escape, shows,
};
use vstd::prelude::*;
use vstd::utf8::{char_is_scalar, encode_utf8};

verus! {

/// The position of the first line feed at or after `i`, or the length of `s`.
pub open spec fn line_break(s: Seq<char>, i: int) -> int {
    span(s, i, CharSet::Except('\n'))
}

/// The line that starts at `i`: up to the next line feed, without the
/// carriage return that may precede it. A carriage return that no line feed
/// follows stays.
pub open spec fn line_at(s: Seq<char>, i: int) -> Seq<char> {
    let e = line_break(s, i);
    if i < e < s.len() && s[e - 1] == '\r' {
        s.subrange(i, e - 1)
    } else {
        s.subrange(i, e)
    }
}

/// The lines of `s` from position `i` on.
pub open spec fn lines_from(s: Seq<char>, i: int) -> Seq<Seq<char>>
    decreases s.len() + 1 - i,
{
    if i < 0 || i >= s.len() {
        Seq::empty()
    } else {
        proof {
            lemma_span(s, i, CharSet::Except('\n'));
        }
        seq![line_at(s, i)] + lines_from(s, line_break(s, i) + 1)
    }
}

/// The lines of `s`. A line ends at a line feed or at the end of the text; the
/// line feed, and a carriage return just before it, are not part of the line.
/// A line feed at the very end starts no further line.
pub open spec fn lines(s: Seq<char>) -> Seq<Seq<char>> {
    lines_from(s, 0)
}

/// Whether `s` holds no line feed.
pub open spec fn no_feed(s: Seq<char>) -> bool {
    forall|k: int| 0 <= k < s.len() ==> s[k] != '\n'
}

/// The lines of a text that stands behind another text, from a position in
/// it, are the lines of the text alone from that position.
pub proof fn lemma_lines_shift(pre: Seq<char>, s: Seq<char>, i: int)
    requires
        0 <= i,
    ensures
        lines_from(pre + s, pre.len() + i) == lines_from(s, i),
    decreases s.len() + 1 - i,
{
    let all = pre + s;
    if i < s.len() {
        let set = CharSet::Except('\n');
        lemma_span_shift(pre, s, i, set);
        lemma_span(s, i, set);
        let e = line_break(s, i);
        assert(all.subrange(pre.len() + i, pre.len() + e) == s.subrange(i, e));
        if i < e {
            assert(all[pre.len() + e - 1] == s[e - 1]);
            assert(all.subrange(pre.len() + i, pre.len() + e - 1) == s.subrange(i, e - 1));
        }
        assert(line_at(all, pre.len() + i) == line_at(s, i));
        lemma_lines_shift(pre, s, e + 1);
    }
}

/// A text without a line feed that does not end in a carriage return, a
/// line feed behind it, and then more text: the first line is that text, and
/// the other lines are those of what follows.
pub proof fn lemma_lines_first(a: Seq<char>, rest: Seq<char>)
    requires
        no_feed(a),
        !(a.len() > 0 && a[a.len() - 1] == '\r'),
    ensures
        lines(a + seq!['\n'] + rest) == seq![a] + lines(rest),
{
    let pre = a + seq!['\n'];
    let all = pre + rest;
    let set = CharSet::Except('\n');
    assert forall|j: int| 0 <= j < a.len() implies set.has(#[trigger] all[j]) by {
        assert(all[j] == a[j]);
    }
    assert(all[a.len() as int] == '\n');
    lemma_span_is(all, 0, a.len() as int, set);
    assert(all.subrange(0, a.len() as int) == a);
    if a.len() > 0 {
        assert(all[a.len() - 1] == a[a.len() - 1]);
    }
    assert(line_at(all, 0) == a);
    lemma_lines_shift(pre, rest, 0);
}

/// A text that is not empty and holds no line feed is its own and only line.
pub proof fn lemma_lines_single(a: Seq<char>)
    requires
        no_feed(a),
        a.len() > 0,
    ensures
        lines(a) == seq![a],
{
    let set = CharSet::Except('\n');
    lemma_span_is(a, 0, a.len() as int, set);
    assert(a.subrange(0, a.len() as int) == a);
    assert(lines_from(a, a.len() as int + 1) == Seq::<Seq<char>>::empty());
}

/// No line of a text holds a line feed, and there are no more lines from a
/// position on than characters.
pub proof fn lemma_lines_hold_no_feed(s: Seq<char>, i: int)
    requires
        0 <= i,
    ensures
        forall|k: int| 0 <= k < lines_from(s, i).len() ==> no_feed(#[trigger] lines_from(s, i)[k]),
    decreases s.len() + 1 - i,
{
    if i < s.len() {
        let set = CharSet::Except('\n');
        lemma_span(s, i, set);
        let e = line_break(s, i);
        lemma_lines_hold_no_feed(s, e + 1);
        let first = line_at(s, i);
        assert(no_feed(first)) by {
            assert forall|k: int| 0 <= k < first.len() implies first[k] != '\n' by {
                assert(first[k] == s[i + k]);
                assert(set.has(s[i + k]));
            }
        }
        let all = lines_from(s, i);
        let rest = lines_from(s, e + 1);
        assert forall|k: int| 0 <= k < all.len() implies no_feed(#[trigger] all[k]) by {
            if k > 0 {
                assert(all[k] == rest[k - 1]);
            }
        }
    }
}

/// What each slice of `v` holds.
pub open spec fn views(v: Seq<&[char]>) -> Seq<Seq<char>> {
    Seq::new(v.len(), |k: int| v[k]@)
}

/// What each vector of `v` holds.
pub open spec fn rows(v: Seq<Vec<char>>) -> Seq<Seq<char>> {
    Seq::new(v.len(), |k: int| v[k]@)
}

/// Splits `s` into its lines.
pub fn split_lines<'a>(s: &'a [char]) -> (out: Vec<&'a [char]>)
    ensures
        views(out@) == lines(s@),
{
    let n = s.len();
    let mut out: Vec<&'a [char]> = Vec::new();
    let mut i: usize = 0;
    while i < n
        invariant
            n == s@.len(),
            i <= n,
            views(out@) + lines_from(s@, i as int) == lines(s@),
        decreases n - i,
    {
        let e = skip_run(s, i, CharSet::Except('\n'));
        let line = if i < e && e < n && s[e - 1] == '\r' {
            &s[i..e - 1]
        } else {
            &s[i..e]
        };
        let ghost before = views(out@);
        out.push(line);
        assert(views(out@) == before + seq![line_at(s@, i as int)]);
        assert(lines_from(s@, n as int) == Seq::<Seq<char>>::empty());
        assert(lines_from(s@, n + 1) == Seq::<Seq<char>>::empty());
        if e == n {
            i = n;
        } else {
            i = e + 1;
        }
    }
    out
}

/// The pieces of `ls` one after another, with `sep` between two neighbours.
pub open spec fn join(ls: Seq<Seq<char>>, sep: Seq<char>) -> Seq<char>
    decreases ls.len(),
{
    if ls.len() == 0 {
        Seq::empty()
    } else if ls.len() == 1 {
        ls[0]
    } else {
        join(ls.drop_last(), sep) + sep + ls.last()
    }
}

/// Joins the lines `v` with a line feed between two neighbours.
pub fn join_rows(v: &Vec<Vec<char>>) -> (out: Vec<char>)
    ensures
        out@ == join(rows(v@), seq!['\n']),
{
    let mut out: Vec<char> = Vec::new();
    let mut k: usize = 0;
    assert(rows(v@).take(0) == Seq::<Seq<char>>::empty());
    while k < v.len()
        invariant
            k <= v@.len(),
            out@ == join(rows(v@).take(k as int), seq!['\n']),
        decreases v@.len() - k,
    {
        proof {
            assert(rows(v@).take(k + 1).drop_last() == rows(v@).take(k as int));
            assert(rows(v@).take(k + 1).last() == v@[k as int]@);
            assert(rows(v@).take(k + 1)[0] == rows(v@)[0]);
        }
        if k > 0 {
            out.push('\n');
        }
        push_all(&mut out, v[k].as_slice());
        k += 1;
    }
    assert(rows(v@).take(k as int) == rows(v@));
    out
}

/// Every line of a text without `ESC` holds none.
pub proof fn lemma_lines_hold_no_escape(s: Seq<char>, i: int)
    requires
        0 <= i,
        no_escape(s),
    ensures
        forall|k: int|
            0 <= k < lines_from(s, i).len() ==> no_escape(#[trigger] lines_from(s, i)[k]),
    decreases s.len() + 1 - i,
{
    if i < s.len() {
        let set = CharSet::Except('\n');
        lemma_span(s, i, set);
        let e = line_break(s, i);
        lemma_lines_hold_no_escape(s, e + 1);
        if i < e {
            lemma_no_escape_part(s, i, e - 1);
        }
        lemma_no_escape_part(s, i, e);
        let all = lines_from(s, i);
        let rest = lines_from(s, e + 1);
        assert forall|k: int| 0 <= k < all.len() implies no_escape(#[trigger] all[k]) by {
            if k > 0 {
                assert(all[k] == rest[k - 1]);
            }
        }
    }
}

/// Every word of a text without `ESC` holds none.
pub proof fn lemma_words_hold_no_escape(s: Seq<char>, i: int)
    requires
        0 <= i,
        no_escape(s),
    ensures
        forall|k: int|
            0 <= k < words_from(s, i).len() ==> no_escape(#[trigger] words_from(s, i)[k]),
    decreases s.len() - i,
{
    let a = span(s, i, CharSet::Space);
    lemma_span(s, if i <= s.len() { i } else { s.len() as int }, CharSet::Space);
    if a < s.len() {
        lemma_span(s, a + 1, CharSet::NonSpace);
        let b = span(s, a + 1, CharSet::NonSpace);
        lemma_words_hold_no_escape(s, b);
        lemma_no_escape_part(s, a, b);
        let all = words_from(s, i);
        let rest = words_from(s, b);
        assert forall|k: int| 0 <= k < all.len() implies no_escape(#[trigger] all[k]) by {
            if k > 0 {
                assert(all[k] == rest[k - 1]);
            }
        }
    }
}

/// Lines that show other lines, joined by line feeds, show those lines
/// joined by line feeds.
pub proof fn lemma_join_shows(xs: Seq<Seq<char>>, ys: Seq<Seq<char>>)
    requires
        xs.len() == ys.len(),
        forall|k: int| 0 <= k < xs.len() ==> shows(#[trigger] xs[k], ys[k]),
    ensures
        shows(join(xs, seq!['\n']), join(ys, seq!['\n'])),
    decreases xs.len(),
{
    let nl = seq!['\n'];
    if xs.len() == 0 {
        lemma_shows_text(Seq::empty());
    } else if xs.len() == 1 {
        assert(shows(xs[0], ys[0]));
    } else {
        lemma_join_shows(xs.drop_last(), ys.drop_last());
        assert(no_escape(nl));
        lemma_shows_text(nl);
        lemma_shows_concat(join(xs.drop_last(), nl), join(ys.drop_last(), nl), nl, nl);
        assert(shows(xs[xs.len() - 1], ys[ys.len() - 1]));
        lemma_shows_concat(
            join(xs.drop_last(), nl) + nl,
            join(ys.drop_last(), nl) + nl,
            xs.last(),
            ys.last(),
        );
    }
}

/// The words of `s` from position `i` on.
pub open spec fn words_from(s: Seq<char>, i: int) -> Seq<Seq<char>>
    decreases s.len() - i,
{
    let a = span(s, i, CharSet::Space);
    if i < 0 || a >= s.len() {
        Seq::empty()
    } else {
        proof {
            lemma_span(s, i, CharSet::Space);
            lemma_span(s, a + 1, CharSet::NonSpace);
        }
        let b = span(s, a + 1, CharSet::NonSpace);
        seq![s.subrange(a, b)] + words_from(s, b)
    }
}

/// The words of `s`: its longest runs of characters that are not white space.
pub open spec fn words(s: Seq<char>) -> Seq<Seq<char>> {
    words_from(s, 0)
}

/// Splits `s` into its words.
pub fn split_words<'a>(s: &'a [char]) -> (out: Vec<&'a [char]>)
    ensures
        views(out@) == words(s@),
{
    let n = s.len();
    let mut out: Vec<&'a [char]> = Vec::new();
    let mut i: usize = 0;
    loop
        invariant
            n == s@.len(),
            i <= n,
            views(out@) + words_from(s@, i as int) == words(s@),
        ensures
            views(out@) == words(s@),
        decreases n - i,
    {
        let a = skip_run(s, i, CharSet::Space);
        if a >= n {
            assert(words_from(s@, i as int) == Seq::<Seq<char>>::empty());
            break ;
        }
        let b = skip_run(s, a + 1, CharSet::NonSpace);
        let ghost before = views(out@);
        out.push(&s[a..b]);
        assert(views(out@) == before + seq![s@.subrange(a as int, b as int)]);
        i = b;
    }
    out
}

/// `s` from position `i` on, with every occurrence of `from` replaced by `to`,
/// the occurrences taken from left to right without overlap.
pub open spec fn replace_from(s: Seq<char>, from: Seq<char>, to: Seq<char>, i: int) -> Seq<char>
    decreases s.len() - i,
{
    if i < 0 || i >= s.len() {
        Seq::empty()
    } else if from.len() > 0 && matches_at(s, i, from) {
        to + replace_from(s, from, to, i + from.len())
    } else {
        seq![s[i]] + replace_from(s, from, to, i + 1)
    }
}

/// `s` with every occurrence of `from` replaced by `to`. An empty `from` occurs nowhere.
pub open spec fn replace(s: Seq<char>, from: Seq<char>, to: Seq<char>) -> Seq<char> {
    replace_from(s, from, to, 0)
}

/// Replaces every occurrence of `from` in `s` by `to`.
pub fn replace_all(s: &[char], from: &[char], to: &[char]) -> (out: Vec<char>)
    ensures
        out@ == replace(s@, from@, to@),
{
    let n = s.len();
    let mut out: Vec<char> = Vec::new();
    let mut i: usize = 0;
    while i < n
        invariant
            n == s@.len(),
            i <= n,
            out@ + replace_from(s@, from@, to@, i as int) == replace(s@, from@, to@),
        decreases n - i,
    {
        if from.len() > 0 && is_at(s, i, from) {
            push_all(&mut out, to);
            i = i + from.len();
        } else {
            out.push(s[i]);
            i = i + 1;
        }
    }
    out
}

/// Number of bytes that `c` takes in UTF-8.
pub open spec fn char_width(c: char) -> nat {
    if (c as u32) < 0x80 {
        1
    } else if (c as u32) < 0x800 {
        2
    } else if (c as u32) < 0x10000 {
        3
    } else {
        4
    }
}

/// Number of bytes that `s` takes in UTF-8: the length of a `str` that
/// holds it.
pub open spec fn utf8_len(s: Seq<char>) -> nat {
    encode_utf8(s).len()
}

/// A character more makes a text longer by the bytes of that character.
pub proof fn lemma_utf8_len_push(s: Seq<char>, c: char)
    ensures
        utf8_len(s.push(c)) == utf8_len(s) + char_width(c),
    decreases s.len(),
{
    let all = s.push(c);
    char_is_scalar(c);
    if s.len() == 0 {
        assert(all.drop_first() == Seq::<char>::empty());
        assert(encode_utf8(all.drop_first()).len() == 0);
    } else {
        assert(all.drop_first() == s.drop_first().push(c));
        lemma_utf8_len_push(s.drop_first(), c);
    }
}

/// The UTF-8 length of a concatenation is the sum of the lengths.
pub proof fn lemma_utf8_len_concat(a: Seq<char>, b: Seq<char>)
    ensures
        utf8_len(a + b) == utf8_len(a) + utf8_len(b),
    decreases b.len(),
{
    if b.len() == 0 {
        assert(a + b == a);
    } else {
        assert(a + b == (a + b.drop_last()).push(b.last()));
        assert(b == b.drop_last().push(b.last()));
        lemma_utf8_len_concat(a, b.drop_last());
        lemma_utf8_len_push(a + b.drop_last(), b.last());
        lemma_utf8_len_push(b.drop_last(), b.last());
    }
}

/// The UTF-8 length of a text is between one and four times its number of characters.
pub proof fn lemma_utf8_len_bounds(s: Seq<char>)
    ensures
        s.len() <= utf8_len(s) <= 4 * s.len(),
    decreases s.len(),
{
    if s.len() > 0 {
        assert(s == s.drop_last().push(s.last()));
        lemma_utf8_len_bounds(s.drop_last());
        lemma_utf8_len_push(s.drop_last(), s.last());
    }
}

/// Counts the bytes that `s` takes in UTF-8.
pub fn byte_len(s: &[char]) -> (n: u128)
    ensures
        n == utf8_len(s@),
{
    let mut n: u128 = 0;
    let mut k: usize = 0;
    assert(s@.take(0) == Seq::<char>::empty());
    while k < s.len()
        invariant
            k <= s@.len(),
            n == utf8_len(s@.take(k as int)),
            n <= 4 * k,
        decreases s@.len() - k,
    {
        let u: u32 = s[k] as u32;
        let w: u128 = if u < 0x80 {
            1
        } else if u < 0x800 {
            2
        } else if u < 0x10000 {
            3
        } else {
            4
        };
        proof {
            assert(s@.take(k + 1) == s@.take(k as int).push(s@[k as int]));
            lemma_utf8_len_push(s@.take(k as int), s@[k as int]);
        }
        n = n + w;
        k += 1;
    }
    assert(s@.take(k as int) == s@);
    n
}

} // verus!
