//! Colouring of TOML, line by line. Colouring adds codes and alters no
//! character of the text.

use crate::ansi::{
    lemma_no_escape_part, lemma_shows_concat, lemma_shows_text, lemma_shows_tint, no_escape,
    shows, strip_ansi,
};
use crate::lines::{
    join, join_rows, lemma_join_shows, lemma_lines_hold_no_escape, lines, rows, split_lines,
    views,
};
use crate::number::{is_float, is_float_text};
use crate::palette::{Colors, Paint, Palette};
use crate::text::{
    chars_of, ends_with_char, find, find_from, first_is, indent_of, last_is, leading_space,
    lemma_find_from, lemma_trim_len, lemma_trim_parts, matches_at, push_all, search,
    search_from, spells, starts_with_char, string_of, strip, tail_of, trailing_space, trim,
};
use vstd::prelude::*;

verus! {

/// What parts two elements of an array.
pub open spec fn item_sep() -> Seq<char> {
    seq![',', ' ']
}

/// A TOML value without white space around it, in its colour: quoted
/// strings in magenta, `true`, `false` and numbers in yellow. Of an array,
/// which starts with `[` and ends with `]`, the brackets and the separators
/// are gray, and each element is coloured as a value of its own. Anything
/// else is left as it is.
pub open spec fn toml_core(t: Seq<char>, p: Palette) -> Seq<char>
    decreases t.len(), 0nat,
{
    if first_is(t, '"') && last_is(t, '"') {
        p.magenta + t + p.reset
    } else if t == "true"@ || t == "false"@ || is_float_text(t) {
        p.yellow + t + p.reset
    } else if first_is(t, '[') && last_is(t, ']') {
        p.gray + seq!['['] + p.reset + toml_items(t.subrange(1, t.len() - 1), 0, p) + p.gray
            + seq![']'] + p.reset
    } else {
        t
    }
}

/// A TOML value in its colour. The white space around the value stays
/// where it is.
pub open spec fn toml_value(s: Seq<char>, p: Palette) -> Seq<char>
    decreases s.len(), 1nat,
{
    proof {
        lemma_trim_len(s);
    }
    indent_of(s) + toml_core(trim(s), p) + tail_of(s)
}

/// The elements of an array in colour, from position `i` of what stands
/// between its brackets: the text is parted at every comma that a space
/// follows, and the separator is shown in gray.
pub open spec fn toml_items(inner: Seq<char>, i: int, p: Palette) -> Seq<char>
    decreases inner.len() + 1, inner.len() + 2 - i,
{
    if i < 0 || i > inner.len() {
        Seq::empty()
    } else {
        proof {
            lemma_find_from(inner, item_sep(), i);
        }
        let sep = if i > 0 {
            p.gray + item_sep() + p.reset
        } else {
            Seq::empty()
        };
        match find_from(inner, item_sep(), i) {
            None => sep + toml_value(inner.skip(i), p),
            Some(k) => sep + toml_value(inner.subrange(i, k), p) + toml_items(inner, k + 2, p),
        }
    }
}

/// One line of TOML in colour. A line in brackets is a section header, all
/// green. A line with ` = ` is a key in cyan, the sign in gray, and a value.
/// Every other line is left as it is.
pub open spec fn toml_line(line: Seq<char>, p: Palette) -> Seq<char> {
    let t = trim(line);
    if first_is(t, '[') && last_is(t, ']') {
        p.green + line + p.reset
    } else {
        match find(t, " = "@) {
            Some(k) => indent_of(line) + p.cyan + t.take(k) + p.reset + p.gray + " = "@ + p.reset
                + toml_value(line.skip(indent_of(line).len() + k + 3), p),
            None => line,
        }
    }
}

/// The lines `ls`, each in colour.
pub open spec fn toml_rows(ls: Seq<Seq<char>>, p: Palette) -> Seq<Seq<char>> {
    Seq::new(ls.len(), |k: int| toml_line(ls[k], p))
}

/// The TOML text `s` with the codes of `p`: its lines in colour, joined by
/// line feeds. The palette decides the colour codes and nothing else.
pub open spec fn toml_colored(s: Seq<char>, p: Palette) -> Seq<char> {
    join(toml_rows(lines(s), p), seq!['\n'])
}

/// Where the text that the elements from `i` on show begins: at the
/// separator in front of them, if there is one.
pub open spec fn items_start(i: int) -> int {
    if i > 0 {
        i - 2
    } else {
        0
    }
}

/// A value without white space around it, in colour, shows the value, and
/// with the plain palette it is the value.
proof fn lemma_toml_core_keeps(t: Seq<char>, p: Palette)
    requires
        no_escape(t),
        p.is_invisible(),
    ensures
        shows(toml_core(t, p), t),
        toml_core(t, Palette::plain()) == t,
    decreases t.len(), 0nat,
{
    let q = Palette::plain();
    if first_is(t, '"') && last_is(t, '"') {
        lemma_shows_tint(p.magenta, t, p.reset);
        assert(toml_core(t, q) == t);
    } else if t == "true"@ || t == "false"@ || is_float_text(t) {
        lemma_shows_tint(p.yellow, t, p.reset);
        assert(toml_core(t, q) == t);
    } else if first_is(t, '[') && last_is(t, ']') {
        let inner = t.subrange(1, t.len() - 1);
        lemma_no_escape_part(t, 1, t.len() - 1);
        lemma_toml_items_keep(inner, 0, p);
        assert(inner.skip(0) == inner);
        let open = seq!['['];
        let close = seq![']'];
        lemma_shows_tint(p.gray, open, p.reset);
        lemma_shows_tint(p.gray, close, p.reset);
        lemma_shows_concat(p.gray + open + p.reset, open, toml_items(inner, 0, p), inner);
        lemma_shows_concat(
            p.gray + open + p.reset + toml_items(inner, 0, p),
            open + inner,
            p.gray + close + p.reset,
            close,
        );
        assert(open + inner + close == t);
        assert(toml_core(t, p) == p.gray + open + p.reset + toml_items(inner, 0, p) + (p.gray
            + close + p.reset));
        assert(toml_core(t, q) == open + toml_items(inner, 0, q) + close);
    } else {
        lemma_shows_text(t);
    }
}

/// A value in colour shows the value, and with the plain palette it is the
/// value.
proof fn lemma_toml_value_keeps(s: Seq<char>, p: Palette)
    requires
        no_escape(s),
        p.is_invisible(),
    ensures
        shows(toml_value(s, p), s),
        toml_value(s, Palette::plain()) == s,
    decreases s.len(), 1nat,
{
    lemma_trim_parts(s);
    lemma_trim_len(s);
    let lead = indent_of(s);
    let t = trim(s);
    let tail = tail_of(s);
    let a = lead.len() as int;
    let b = a + t.len();
    lemma_no_escape_part(s, 0, a);
    lemma_no_escape_part(s, a, b);
    lemma_no_escape_part(s, b, s.len() as int);
    assert(lead == s.subrange(0, a));
    assert(t == s.subrange(a, b));
    assert(tail == s.subrange(b, s.len() as int));
    lemma_toml_core_keeps(t, p);
    lemma_shows_text(lead);
    lemma_shows_text(tail);
    lemma_shows_concat(lead, lead, toml_core(t, p), t);
    lemma_shows_concat(lead + toml_core(t, p), lead + t, tail, tail);
}

/// The elements of an array in colour show the elements, with the
/// separator in front of them if there is one, and with the plain palette
/// they are that text.
proof fn lemma_toml_items_keep(inner: Seq<char>, i: int, p: Palette)
    requires
        no_escape(inner),
        p.is_invisible(),
        0 <= i <= inner.len(),
        i > 0 ==> matches_at(inner, i - 2, item_sep()),
    ensures
        shows(toml_items(inner, i, p), inner.skip(items_start(i))),
        toml_items(inner, i, Palette::plain()) == inner.skip(items_start(i)),
    decreases inner.len() + 1, inner.len() + 2 - i,
{
    let q = Palette::plain();
    let none = Seq::<char>::empty();
    lemma_find_from(inner, item_sep(), i);
    let sep_p = if i > 0 {
        p.gray + item_sep() + p.reset
    } else {
        none
    };
    let sep_q = if i > 0 {
        item_sep()
    } else {
        none
    };
    if i > 0 {
        lemma_shows_tint(p.gray, item_sep(), p.reset);
        assert(inner.subrange(i - 2, i) == item_sep());
    } else {
        lemma_shows_text(none);
    }
    match find_from(inner, item_sep(), i) {
        None => {
            let piece = inner.skip(i);
            lemma_no_escape_part(inner, i, inner.len() as int);
            assert(piece == inner.subrange(i, inner.len() as int));
            lemma_toml_value_keeps(piece, p);
            lemma_shows_concat(sep_p, sep_q, toml_value(piece, p), piece);
            assert(sep_q + piece == inner.skip(items_start(i)));
            assert(toml_items(inner, i, q) == sep_q + toml_value(piece, q));
        },
        Some(k) => {
            let piece = inner.subrange(i, k);
            lemma_no_escape_part(inner, i, k);
            lemma_toml_value_keeps(piece, p);
            assert(inner.subrange(k, k + 2) == item_sep());
            lemma_toml_items_keep(inner, k + 2, p);
            lemma_shows_concat(sep_p, sep_q, toml_value(piece, p), piece);
            lemma_shows_concat(
                sep_p + toml_value(piece, p),
                sep_q + piece,
                toml_items(inner, k + 2, p),
                inner.skip(k),
            );
            assert(sep_q + piece + inner.skip(k) == inner.skip(items_start(i)));
            assert(toml_items(inner, i, q) == sep_q + toml_value(piece, q) + toml_items(
                inner,
                k + 2,
                q,
            ));
        },
    }
}

/// A line in colour shows the line, and with the plain palette it is the
/// line.
proof fn lemma_toml_line_keeps(line: Seq<char>, p: Palette)
    requires
        no_escape(line),
        p.is_invisible(),
    ensures
        shows(toml_line(line, p), line),
        toml_line(line, Palette::plain()) == line,
{
    let q = Palette::plain();
    let t = trim(line);
    if first_is(t, '[') && last_is(t, ']') {
        lemma_shows_tint(p.green, line, p.reset);
        assert(toml_line(line, q) == line);
    } else {
        reveal_strlit(" = ");
        lemma_find_from(t, " = "@, 0);
        match find(t, " = "@) {
            Some(k) => {
                lemma_trim_parts(line);
                let lead = indent_of(line);
                let key = t.take(k);
                let a = lead.len() as int;
                let rest = line.skip(a + k + 3);
                assert(t == line.subrange(a, a + t.len()));
                assert(key == line.subrange(a, a + k));
                assert(" = "@ == line.subrange(a + k, a + k + 3)) by {
                    assert(t.subrange(k, k + 3) == " = "@);
                    assert(t.subrange(k, k + 3) == line.subrange(a + k, a + k + 3));
                }
                assert(lead == line.subrange(0, a));
                assert(rest == line.subrange(a + k + 3, line.len() as int));
                lemma_no_escape_part(line, 0, a);
                lemma_no_escape_part(line, a, a + k);
                lemma_no_escape_part(line, a + k, a + k + 3);
                lemma_no_escape_part(line, a + k + 3, line.len() as int);
                lemma_toml_value_keeps(rest, p);
                lemma_shows_text(lead);
                lemma_shows_tint(p.cyan, key, p.reset);
                lemma_shows_tint(p.gray, " = "@, p.reset);
                lemma_shows_concat(lead, lead, p.cyan + key + p.reset, key);
                lemma_shows_concat(
                    lead + (p.cyan + key + p.reset),
                    lead + key,
                    p.gray + " = "@ + p.reset,
                    " = "@,
                );
                lemma_shows_concat(
                    lead + (p.cyan + key + p.reset) + (p.gray + " = "@ + p.reset),
                    lead + key + " = "@,
                    toml_value(rest, p),
                    rest,
                );
                assert(lead + key + " = "@ + rest == line);
                assert(toml_line(line, p) == lead + (p.cyan + key + p.reset) + (p.gray + " = "@
                    + p.reset) + toml_value(rest, p));
                assert(toml_line(line, q) == lead + key + " = "@ + toml_value(rest, q));
            },
            None => {
                lemma_shows_text(line);
            },
        }
    }
}

/// Colouring alters no character of the text. For every text without an
/// escape character and every palette whose codes are invisible: once the
/// colour codes are removed, the coloured text is the lines of the text,
/// joined by line feeds; and with the plain palette the result is that text
/// itself.
pub proof fn lemma_toml_colors_keep_text(s: Seq<char>, p: Palette)
    requires
        no_escape(s),
        p.is_invisible(),
    ensures
        strip_ansi(toml_colored(s, p)) == join(lines(s), seq!['\n']),
        toml_colored(s, Palette::plain()) == join(lines(s), seq!['\n']),
        strip_ansi(toml_colored(s, p)) == toml_colored(s, Palette::plain()),
{
    let ls = lines(s);
    lemma_lines_hold_no_escape(s, 0);
    assert forall|k: int| 0 <= k < ls.len() implies shows(
        #[trigger] toml_rows(ls, p)[k],
        ls[k],
    ) && toml_rows(ls, Palette::plain())[k] == ls[k] by {
        lemma_toml_line_keeps(ls[k], p);
    }
    lemma_join_shows(toml_rows(ls, p), ls);
    assert forall|k: int| 0 <= k < ls.len() implies #[trigger] toml_rows(ls, Palette::plain())[k]
        == ls[k] by {
        lemma_toml_line_keeps(ls[k], p);
    }
    assert(toml_rows(ls, Palette::plain()) == ls);
}

/// Whether `t` is `true` or `false`.
fn is_bool_word(t: &[char]) -> (b: bool)
    ensures
        b == (t@ == "true"@ || t@ == "false"@),
{
    spells(t, "true") || spells(t, "false")
}

/// Appends `text` between `color` and the code that ends a colour.
fn push_colored(out: &mut Vec<char>, color: &[char], text: &[char], paint: &Paint)
    ensures
        final(out)@ == old(out)@ + (color@ + text@ + paint@.reset),
{
    push_all(out, color);
    push_all(out, text);
    push_all(out, paint.reset.as_slice());
    assert(out@ == old(out)@ + (color@ + text@ + paint@.reset));
}

/// Appends a TOML value without white space around it, in its colour.
fn push_toml_core(out: &mut Vec<char>, t: &[char], paint: &Paint)
    ensures
        final(out)@ == old(out)@ + toml_core(t@, paint@),
    decreases t@.len(), 0nat,
{
    let n = t.len();
    if starts_with_char(t, '"') && ends_with_char(t, '"') {
        push_colored(out, paint.magenta.as_slice(), t, paint);
    } else if is_bool_word(t) || is_float(t) {
        push_colored(out, paint.yellow.as_slice(), t, paint);
    } else if starts_with_char(t, '[') && ends_with_char(t, ']') {
        let open: [char; 1] = ['['];
        let close: [char; 1] = [']'];
        assert(open@ == seq!['[']);
        assert(close@ == seq![']']);
        push_colored(out, paint.gray.as_slice(), open.as_slice(), paint);
        let ghost first = out@;
        push_toml_items(out, &t[1..n - 1], paint);
        let ghost mid = out@;
        push_colored(out, paint.gray.as_slice(), close.as_slice(), paint);
        assert(out@ == old(out)@ + toml_core(t@, paint@)) by {
            let items = toml_items(t@.subrange(1, n - 1), 0, paint@);
            assert(mid == first + items);
            assert(out@ == old(out)@ + (paint@.gray + seq!['['] + paint@.reset + items
                + paint@.gray + seq![']'] + paint@.reset));
        }
    } else {
        push_all(out, t);
    }
}

/// Appends a TOML value in its colour, with the white space around it.
fn push_toml_value(out: &mut Vec<char>, s: &[char], paint: &Paint)
    ensures
        final(out)@ == old(out)@ + toml_value(s@, paint@),
    decreases s@.len(), 1nat,
{
    proof {
        lemma_trim_len(s@);
    }
    push_all(out, leading_space(s));
    push_toml_core(out, strip(s), paint);
    push_all(out, trailing_space(s));
    assert(out@ == old(out)@ + (indent_of(s@) + toml_core(trim(s@), paint@) + tail_of(s@)));
}

/// Appends the elements of an array in colour.
fn push_toml_items(out: &mut Vec<char>, inner: &[char], paint: &Paint)
    ensures
        final(out)@ == old(out)@ + toml_items(inner@, 0, paint@),
    decreases inner@.len() + 1, 0nat,
{
    let m = inner.len();
    let sep: [char; 2] = [',', ' '];
    assert(sep@ == item_sep());
    let mut i: usize = 0;
    loop
        invariant_except_break
            out@ + toml_items(inner@, i as int, paint@) == old(out)@ + toml_items(
                inner@,
                0,
                paint@,
            ),
        invariant
            m == inner@.len(),
            i <= m,
            sep@ == item_sep(),
        ensures
            out@ == old(out)@ + toml_items(inner@, 0, paint@),
        decreases m + 2 - i,
    {
        let ghost before = out@;
        let ghost rest = toml_items(inner@, i as int, paint@);
        if i > 0 {
            push_colored(out, paint.gray.as_slice(), sep.as_slice(), paint);
        }
        proof {
            lemma_find_from(inner@, item_sep(), i as int);
        }
        match search_from(inner, sep.as_slice(), i) {
            None => {
                push_toml_value(out, &inner[i..m], paint);
                assert(out@ == before + rest);
                assert(before + rest == old(out)@ + toml_items(inner@, 0, paint@));
                break ;
            },
            Some(k) => {
                push_toml_value(out, &inner[i..k], paint);
                let ghost tail = toml_items(inner@, k + 2, paint@);
                assert(out@ + tail == before + rest);
                i = k + 2;
            },
        }
    }
}

/// Appends a line with a key, the sign at position `k` of the trimmed line.
fn push_toml_entry(out: &mut Vec<char>, line: &[char], k: usize, paint: &Paint)
    requires
        find(trim(line@), " = "@) == Some(k as int),
        k + 3 <= trim(line@).len(),
    ensures
        final(out)@ == old(out)@ + (indent_of(line@) + paint@.cyan + trim(line@).take(k as int)
            + paint@.reset + paint@.gray + " = "@ + paint@.reset + toml_value(
            line@.skip(indent_of(line@).len() + k + 3),
            paint@,
        )),
{
    let n = line.len();
    let t = strip(line);
    let lead = leading_space(line);
    let a = lead.len();
    proof {
        lemma_trim_parts(line@);
    }
    let sign = chars_of(" = ");
    push_all(out, lead);
    push_colored(out, paint.cyan.as_slice(), &t[0..k], paint);
    push_colored(out, paint.gray.as_slice(), sign.as_slice(), paint);
    let ghost mid = out@;
    assert(mid == old(out)@ + (indent_of(line@) + paint@.cyan + t@.take(k as int) + paint@.reset
        + paint@.gray + " = "@ + paint@.reset));
    push_toml_value(out, &line[a + k + 3..n], paint);
}

/// One line of TOML in colour.
fn make_toml_line(line: &[char], paint: &Paint) -> (out: Vec<char>)
    ensures
        out@ == toml_line(line@, paint@),
{
    let mut out: Vec<char> = Vec::new();
    let t = strip(line);
    let sign = chars_of(" = ");
    if starts_with_char(t, '[') && ends_with_char(t, ']') {
        push_colored(&mut out, paint.green.as_slice(), line, paint);
    } else {
        match search(t, sign.as_slice()) {
            Some(k) => {
                proof {
                    reveal_strlit(" = ");
                }
                push_toml_entry(&mut out, line, k, paint);
            },
            None => {
                push_all(&mut out, line);
            },
        }
    }
    out
}

/// Colours the lines of `s` with the codes of `paint`.
pub fn paint_toml(s: &[char], paint: &Paint) -> (out: Vec<Vec<char>>)
    ensures
        rows(out@) == toml_rows(lines(s@), paint@),
{
    let ls = split_lines(s);
    let n = ls.len();
    let mut out: Vec<Vec<char>> = Vec::new();
    let mut k: usize = 0;
    while k < n
        invariant
            n == ls@.len(),
            views(ls@) == lines(s@),
            k <= n,
            out@.len() == k,
            forall|j: int| 0 <= j < k ==> (#[trigger] out@[j])@ == toml_line(lines(s@)[j], paint@),
        decreases n - k,
    {
        assert(views(ls@)[k as int] == ls@[k as int]@);
        out.push(make_toml_line(ls[k], paint));
        k += 1;
    }
    assert(rows(out@) =~= toml_rows(lines(s@), paint@));
    out
}

/// Colours TOML. A line that starts and ends with a bracket is a section
/// header. A line with ` = ` is parted into key and value, and the elements
/// of an array that is closed on the line are coloured one by one. Any other
/// line passes through. No character of the text is altered: the palette
/// gives the codes, and a plain one gives the lines as they are.
pub fn colorize_toml(s: &str, c: &Colors) -> (out: String)
    ensures
        out@ == toml_colored(s@, c@),
{
    let paint = Paint::new(c);
    let chars = chars_of(s);
    let painted = paint_toml(chars.as_slice(), &paint);
    string_of(join_rows(&painted).as_slice())
}

/// Colours a single TOML value.
pub fn colorize_toml_value(s: &str, c: &Colors) -> (out: String)
    ensures
        out@ == toml_value(s@, c@),
{
    let paint = Paint::new(c);
    let chars = chars_of(s);
    let mut out: Vec<char> = Vec::new();
    push_toml_value(&mut out, chars.as_slice(), &paint);
    string_of(out.as_slice())
}

} // verus!
