//! Fitting a rendering to the panel: word wrap and truncation.

use crate::ansi::{lemma_no_escape_concat, lemma_no_escape_part, no_escape};
use crate::lines::{
    byte_len, join, lemma_lines_first, lemma_lines_hold_no_escape, lemma_lines_hold_no_feed,
    lemma_lines_single, lemma_words_hold_no_escape,
    lemma_utf8_len_bounds, lemma_utf8_len_concat, lemma_utf8_len_push, lines, no_feed,
    split_lines, split_words, utf8_len, views, words,
};
use crate::number::{decimal, push_decimal};
use crate::palette::{Colors, Paint, Palette};
use crate::text::{
    chars_of, last_is, lemma_span_back, push_all, string_of, strip_end, trim_end, CharSet,
};
use vstd::prelude::*;

verus! {

/// The number of lines that a rendering may have before it is cut.
pub const MAX_LINES: usize = 50;

/// A line being filled with words: the lines that are full, each with its
/// line feed, and the line that is still open.
pub struct Filling {
    pub done: Seq<char>,
    pub current: Seq<char>,
}

/// The filling after `word`: the word opens the line if the line is empty,
/// joins it behind a space if the line then has `width` bytes at most, and
/// else starts the next line.
pub open spec fn fill_word(f: Filling, word: Seq<char>, width: nat) -> Filling {
    if f.current.len() == 0 {
        Filling { done: f.done, current: word }
    } else if utf8_len(f.current) + 1 + utf8_len(word) <= width {
        Filling { done: f.done, current: f.current + seq![' '] + word }
    } else {
        Filling { done: f.done + f.current + seq!['\n'], current: word }
    }
}

/// The filling after the words `ws`, each taken in turn.
pub open spec fn fill(ws: Seq<Seq<char>>, width: nat) -> Filling
    decreases ws.len(),
{
    if ws.len() == 0 {
        Filling { done: Seq::empty(), current: Seq::empty() }
    } else {
        fill_word(fill(ws.drop_last(), width), ws.last(), width)
    }
}

/// One line wrapped to `width` bytes, every line of the result followed
/// by a line feed. A line that fits is kept as it is; a longer one is
/// filled anew from its words, so that a line holds as many words as fit. A
/// word longer than `width` gets a line of its own.
pub open spec fn wrap_line(line: Seq<char>, width: nat) -> Seq<char> {
    if utf8_len(line) <= width {
        line + seq!['\n']
    } else {
        let f = fill(words(line), width);
        f.done + if f.current.len() > 0 {
            f.current + seq!['\n']
        } else {
            Seq::empty()
        }
    }
}

/// The lines `ls`, each wrapped to `width` bytes.
pub open spec fn wrap_lines(ls: Seq<Seq<char>>, width: nat) -> Seq<char>
    decreases ls.len(),
{
    if ls.len() == 0 {
        Seq::empty()
    } else {
        wrap_lines(ls.drop_last(), width) + wrap_line(ls.last(), width)
    }
}

/// The text `s` wrapped to `width` bytes a line, without white space at
/// its end.
pub open spec fn wrapped(s: Seq<char>, width: nat) -> Seq<char> {
    trim_end(wrap_lines(lines(s), width))
}

/// Filling lines with words that hold no `ESC` gives lines that hold none.
proof fn lemma_fill_holds_no_escape(ws: Seq<Seq<char>>, width: nat)
    requires
        forall|k: int| 0 <= k < ws.len() ==> no_escape(#[trigger] ws[k]),
    ensures
        no_escape(fill(ws, width).done),
        no_escape(fill(ws, width).current),
    decreases ws.len(),
{
    if ws.len() > 0 {
        let front = ws.drop_last();
        assert forall|k: int| 0 <= k < front.len() implies no_escape(#[trigger] front[k]) by {
            assert(front[k] == ws[k]);
        }
        lemma_fill_holds_no_escape(front, width);
        let f = fill(front, width);
        let word = ws.last();
        assert(no_escape(ws[ws.len() - 1]));
        lemma_no_escape_concat(f.current, seq![' ']);
        lemma_no_escape_concat(f.current + seq![' '], word);
        lemma_no_escape_concat(f.done, f.current);
        lemma_no_escape_concat(f.done + f.current, seq!['\n']);
    }
}

/// Wrapping lines that hold no `ESC` gives a text that holds none.
proof fn lemma_wrap_lines_hold_no_escape(ls: Seq<Seq<char>>, width: nat)
    requires
        forall|k: int| 0 <= k < ls.len() ==> no_escape(#[trigger] ls[k]),
    ensures
        no_escape(wrap_lines(ls, width)),
    decreases ls.len(),
{
    if ls.len() > 0 {
        let front = ls.drop_last();
        assert forall|k: int| 0 <= k < front.len() implies no_escape(#[trigger] front[k]) by {
            assert(front[k] == ls[k]);
        }
        lemma_wrap_lines_hold_no_escape(front, width);
        let line = ls.last();
        assert(no_escape(ls[ls.len() - 1]));
        lemma_words_hold_no_escape(line, 0);
        lemma_fill_holds_no_escape(words(line), width);
        let f = fill(words(line), width);
        lemma_no_escape_concat(line, seq!['\n']);
        lemma_no_escape_concat(f.current, seq!['\n']);
        lemma_no_escape_concat(f.done, f.current + seq!['\n']);
        lemma_no_escape_concat(f.done, Seq::empty());
        lemma_no_escape_concat(wrap_lines(front, width), wrap_line(line, width));
    }
}

/// Wrapping a text without `ESC` gives a text that holds none.
pub proof fn lemma_wrapped_holds_no_escape(s: Seq<char>, width: nat)
    requires
        no_escape(s),
    ensures
        no_escape(wrapped(s, width)),
{
    lemma_lines_hold_no_escape(s, 0);
    lemma_wrap_lines_hold_no_escape(lines(s), width);
    let all = wrap_lines(lines(s), width);
    lemma_span_back(all, all.len() as int, CharSet::Space);
    lemma_no_escape_part(all, 0, wrapped(s, width).len() as int);
    assert(wrapped(s, width) == all.subrange(0, wrapped(s, width).len() as int));
}

/// Appends one line, wrapped to `width` bytes.
fn push_wrapped_line(out: &mut Vec<char>, line: &[char], width: usize)
    ensures
        final(out)@ == old(out)@ + wrap_line(line@, width as nat),
{
    if byte_len(line) <= width as u128 {
        push_all(out, line);
        out.push('\n');
        assert(out@ == old(out)@ + (line@ + seq!['\n']));
        return ;
    }
    let ws = split_words(line);
    let n = ws.len();
    let mut current: Vec<char> = Vec::new();
    let mut bytes: u128 = 0;
    let mut k: usize = 0;
    assert(words(line@).take(0) == Seq::<Seq<char>>::empty());
    while k < n
        invariant
            n == ws@.len(),
            views(ws@) == words(line@),
            k <= n,
            bytes == utf8_len(current@),
            out@ == old(out)@ + fill(words(line@).take(k as int), width as nat).done,
            current@ == fill(words(line@).take(k as int), width as nat).current,
        decreases n - k,
    {
        let word = ws[k];
        let have = current.len();
        let size_chars = word.len();
        let ghost before = fill(words(line@).take(k as int), width as nat);
        proof {
            assert(words(line@).take(k + 1).drop_last() == words(line@).take(k as int));
            assert(words(line@).take(k + 1).last() == word@);
            lemma_utf8_len_concat(current@, seq![' ']);
            lemma_utf8_len_concat(current@ + seq![' '], word@);
            assert(utf8_len(seq![' ']) == 1) by {
                assert(seq![' '] == Seq::<char>::empty().push(' '));
                lemma_utf8_len_push(Seq::<char>::empty(), ' ');
            }
            lemma_utf8_len_bounds(current@);
            lemma_utf8_len_bounds(word@);
        }
        let size = byte_len(word);
        if have == 0 {
            push_all(&mut current, word);
            bytes = size;
            assert(current@ == word@);
        } else if bytes + 1 + size <= width as u128 {
            current.push(' ');
            push_all(&mut current, word);
            bytes = bytes + 1 + size;
            assert(current@ == before.current + seq![' '] + word@);
        } else {
            push_all(out, current.as_slice());
            out.push('\n');
            assert(out@ == old(out)@ + (before.done + before.current + seq!['\n']));
            current = Vec::new();
            push_all(&mut current, word);
            bytes = size;
            assert(current@ == word@);
        }
        k += 1;
    }
    assert(words(line@).take(k as int) == words(line@));
    let ghost f = fill(words(line@), width as nat);
    if current.len() > 0 {
        push_all(out, current.as_slice());
        out.push('\n');
        assert(out@ == old(out)@ + (f.done + (f.current + seq!['\n'])));
    } else {
        assert(out@ == old(out)@ + (f.done + Seq::<char>::empty()));
    }
}

/// Wraps the lines of `s` to `width` bytes.
pub fn wrap_text(s: &[char], width: usize) -> (out: Vec<char>)
    ensures
        out@ == wrap_lines(lines(s@), width as nat),
{
    let ls = split_lines(s);
    let n = ls.len();
    let mut out: Vec<char> = Vec::new();
    let mut k: usize = 0;
    assert(lines(s@).take(0) == Seq::<Seq<char>>::empty());
    while k < n
        invariant
            n == ls@.len(),
            views(ls@) == lines(s@),
            k <= n,
            out@ == wrap_lines(lines(s@).take(k as int), width as nat),
        decreases n - k,
    {
        proof {
            assert(lines(s@).take(k + 1).drop_last() == lines(s@).take(k as int));
            assert(lines(s@).take(k + 1).last() == ls@[k as int]@);
        }
        push_wrapped_line(&mut out, ls[k], width);
        k += 1;
    }
    assert(lines(s@).take(k as int) == lines(s@));
    out
}

/// Wraps text at `width` bytes a line. A line of at most `width` bytes is
/// kept as it is, white space included. A longer line is parted into its
/// words, and the words are set on lines of at most `width` bytes with one
/// space between them; a single word that is longer stays whole. White
/// space at the end of the result is removed.
pub fn word_wrap(s: &str, width: usize) -> (out: String)
    ensures
        out@ == wrapped(s@, width as nat),
{
    let chars = chars_of(s);
    let text = wrap_text(chars.as_slice(), width);
    string_of(strip_end(text.as_slice(), CharSet::Space))
}

/// The line that stands for `more` lines that were cut.
pub open spec fn summary(more: nat, p: Palette) -> Seq<char> {
    p.gray + "... ("@ + decimal(more) + " more lines)"@ + p.reset
}

/// The rendering `s`, cut after `MAX_LINES` lines: the first lines as they
/// are, then one line that tells how many were left out. A rendering of
/// `MAX_LINES` lines or fewer is returned as it is.
pub open spec fn truncated(s: Seq<char>, p: Palette) -> Seq<char> {
    let ls = lines(s);
    if ls.len() > MAX_LINES {
        join(ls.take(MAX_LINES as int), seq!['\n']) + seq!['\n'] + summary(
            (ls.len() - MAX_LINES) as nat,
            p,
        )
    } else {
        s
    }
}

/// Lines that hold no line feed and end in no carriage return, joined by
/// line feeds, with a line feed and more text behind: the lines of the whole
/// are those lines and then the lines of what follows.
pub proof fn lemma_lines_of_joined(ls: Seq<Seq<char>>, rest: Seq<char>)
    requires
        ls.len() > 0,
        forall|k: int| 0 <= k < ls.len() ==> no_feed(#[trigger] ls[k]) && !last_is(ls[k], '\r'),
    ensures
        lines(join(ls, seq!['\n']) + seq!['\n'] + rest) == ls + lines(rest),
    decreases ls.len(),
{
    let nl = seq!['\n'];
    if ls.len() == 1 {
        lemma_lines_first(ls[0], rest);
        assert(ls == seq![ls[0]]);
    } else {
        let front = ls.drop_last();
        let last = ls.last();
        let tail = last + nl + rest;
        assert(join(ls, nl) + nl + rest == join(front, nl) + nl + tail);
        lemma_lines_of_joined(front, tail);
        lemma_lines_first(last, rest);
        assert(front + (seq![last] + lines(rest)) == ls + lines(rest));
    }
}

/// The text that was cut begins like the text in full. For a rendering
/// whose first lines end in no carriage return, and a palette whose codes
/// hold no line feed: a rendering of more than `MAX_LINES` lines is cut to
/// exactly `MAX_LINES` of its lines and one line that tells how many more
/// there were; the text that was cut has no more lines than the text in
/// full, and line for line the same ones, up to the cut.
pub proof fn lemma_truncated_starts_like_full(s: Seq<char>, p: Palette)
    requires
        no_feed(p.gray),
        no_feed(p.reset),
        forall|k: int|
            0 <= k < lines(s).len() && k < MAX_LINES ==> !last_is(#[trigger] lines(s)[k], '\r'),
    ensures
        lines(truncated(s, p)).len() <= lines(s).len(),
        lines(s).len() <= MAX_LINES ==> truncated(s, p) == s,
        lines(s).len() > MAX_LINES ==> lines(truncated(s, p)) == lines(s).take(
            MAX_LINES as int,
        ).push(summary((lines(s).len() - MAX_LINES) as nat, p)),
        forall|k: int|
            0 <= k < lines(truncated(s, p)).len() && k < MAX_LINES ==> lines(truncated(s, p))[k]
                == lines(s)[k],
{
    let all = lines(s);
    if all.len() > MAX_LINES {
        let head = all.take(MAX_LINES as int);
        let more = (all.len() - MAX_LINES) as nat;
        let last = summary(more, p);
        lemma_lines_hold_no_feed(s, 0);
        lemma_summary_is_a_line(more, p);
        assert forall|k: int| 0 <= k < head.len() implies no_feed(#[trigger] head[k])
            && !last_is(head[k], '\r') by {
            assert(head[k] == all[k]);
        }
        lemma_lines_of_joined(head, last);
        lemma_lines_single(last);
        assert(head + seq![last] == head.push(last));
    }
}

/// The decimal digits of a number hold no line feed.
proof fn lemma_decimal_holds_no_feed(n: nat)
    ensures
        no_feed(decimal(n)),
        decimal(n).len() > 0,
    decreases n,
{
    if n >= 10 {
        lemma_decimal_holds_no_feed(n / 10);
    }
}

/// The line that stands for the lines that were cut is one line.
proof fn lemma_summary_is_a_line(more: nat, p: Palette)
    requires
        no_feed(p.gray),
        no_feed(p.reset),
    ensures
        no_feed(summary(more, p)),
        summary(more, p).len() > 0,
{
    reveal_strlit("... (");
    reveal_strlit(" more lines)");
    lemma_decimal_holds_no_feed(more);
}

/// Cuts the rendering `s` after `MAX_LINES` lines.
pub fn truncate_text(s: &[char], paint: &Paint) -> (out: Vec<char>)
    ensures
        out@ == truncated(s@, paint@),
{
    let ls = split_lines(s);
    let n = ls.len();
    let mut out: Vec<char> = Vec::new();
    if n <= MAX_LINES {
        push_all(&mut out, s);
        return out;
    }
    let mut k: usize = 0;
    assert(lines(s@).take(0) == Seq::<Seq<char>>::empty());
    while k < MAX_LINES
        invariant
            n == ls@.len(),
            views(ls@) == lines(s@),
            n > MAX_LINES,
            k <= MAX_LINES,
            out@ == join(lines(s@).take(k as int), seq!['\n']),
        decreases MAX_LINES - k,
    {
        proof {
            assert(lines(s@).take(k + 1).drop_last() == lines(s@).take(k as int));
            assert(lines(s@).take(k + 1).last() == ls@[k as int]@);
            assert(lines(s@).take(k + 1)[0] == lines(s@)[0]);
        }
        if k > 0 {
            out.push('\n');
        }
        push_all(&mut out, ls[k]);
        k += 1;
    }
    let ghost head = out@;
    let open = chars_of("... (");
    let close = chars_of(" more lines)");
    out.push('\n');
    push_all(&mut out, paint.gray.as_slice());
    push_all(&mut out, open.as_slice());
    push_decimal(&mut out, (n - MAX_LINES) as u128);
    push_all(&mut out, close.as_slice());
    push_all(&mut out, paint.reset.as_slice());
    assert(out@ == head + seq!['\n'] + summary((n - MAX_LINES) as nat, paint@));
    out
}

/// Cuts a rendering that has more than `MAX_LINES` lines: it keeps the
/// first `MAX_LINES` lines and adds one line that says how many more there
/// were. A rendering of `MAX_LINES` lines or fewer comes back unchanged.
pub fn truncate_output(s: &str, c: &Colors) -> (out: String)
    ensures
        out@ == truncated(s@, c@),
{
    let paint = Paint::new(c);
    let chars = chars_of(s);
    let cut = truncate_text(chars.as_slice(), &paint);
    string_of(cut.as_slice())
}

} // verus!
