//! Colouring of YAML, line by line. Colouring adds codes and alters no
//! character of the text.

use crate::ansi::{
    lemma_no_escape_part, lemma_shows_concat, lemma_shows_text, lemma_shows_tint, no_escape,
    shows, strip_ansi,
};
use crate::lines::{
    join, join_rows, lemma_join_shows, lemma_lines_hold_no_escape, lines, rows, split_lines,
    views,
};
use crate::number::{is_float, is_float_text};
use crate::palette::{Colors, Paint, Palette};
use crate::text::{
    chars_of, first_is, has_char, indent_of, leading_space, lemma_span, lemma_trim_parts,
    push_all, skip_run, span, spells, starts_with_char, string_of, strip, strip_start, tail_of,
    trailing_space, trim, trim_start_of, CharSet,
};
use vstd::prelude::*;

verus! {

/// A YAML scalar without white space around it, in its colour: quoted
/// strings in magenta, `true`, `false`, `null`, `~` and numbers in yellow,
/// any other text without a colon in magenta, as a string without quotes.
/// Anything else is left as it is.
pub open spec fn yaml_core(t: Seq<char>, p: Palette) -> Seq<char> {
    if first_is(t, '"') || first_is(t, '\'') {
        p.magenta + t + p.reset
    } else if t == "true"@ || t == "false"@ || t == "null"@ || t == "~"@ || is_float_text(t) {
        p.yellow + t + p.reset
    } else if t.len() > 0 && !has_char(t, ':') {
        p.magenta + t + p.reset
    } else {
        t
    }
}

/// A YAML scalar in its colour. The white space around the scalar stays
/// where it is.
pub open spec fn yaml_value(s: Seq<char>, p: Palette) -> Seq<char> {
    indent_of(s) + yaml_core(trim(s), p) + tail_of(s)
}

/// The spaces and dashes in front of a key, with the first dash in gray.
pub open spec fn yaml_lead(lead: Seq<char>, p: Palette) -> Seq<char> {
    let dash = span(lead, 0, CharSet::Except('-'));
    if dash < lead.len() {
        lead.take(dash) + p.gray + seq!['-'] + p.reset + lead.skip(dash + 1)
    } else {
        lead
    }
}

/// A line with a key: what precedes the key, the key in cyan, the colon in
/// gray, and what follows the colon as a scalar.
pub open spec fn yaml_entry(line: Seq<char>, colon: int, p: Palette) -> Seq<char> {
    let before = line.take(colon);
    let key = trim_start_of(before, CharSet::SpaceOrDash);
    let lead = before.take(before.len() - key.len());
    yaml_lead(lead, p) + p.cyan + key + p.reset + p.gray + seq![':'] + p.reset + yaml_value(
        line.skip(colon + 1),
        p,
    )
}

/// A list item without a key: the indentation, the dash in gray, and what
/// follows the dash as a scalar.
pub open spec fn yaml_item(line: Seq<char>, p: Palette) -> Seq<char> {
    indent_of(line) + p.gray + seq!['-'] + p.reset + yaml_value(
        line.skip(indent_of(line).len() as int + 1),
        p,
    )
}

/// One line of YAML in colour. A line with a colon has a key if something
/// other than spaces and dashes stands before the colon and it is no
/// comment. A line without a colon that starts with a dash is a list item.
/// Every other line is left as it is.
pub open spec fn yaml_line(line: Seq<char>, p: Palette) -> Seq<char> {
    let colon = span(line, 0, CharSet::Except(':'));
    if colon < line.len() {
        let key = trim_start_of(line.take(colon), CharSet::SpaceOrDash);
        if key.len() > 0 && !first_is(key, '#') {
            yaml_entry(line, colon, p)
        } else {
            line
        }
    } else if first_is(trim(line), '-') {
        yaml_item(line, p)
    } else {
        line
    }
}

/// The lines `ls`, each in colour.
pub open spec fn yaml_rows(ls: Seq<Seq<char>>, p: Palette) -> Seq<Seq<char>> {
    Seq::new(ls.len(), |k: int| yaml_line(ls[k], p))
}

/// The YAML text `s` with the codes of `p`: its lines in colour, joined by
/// line feeds. The palette decides the colour codes and nothing else.
pub open spec fn yaml_colored(s: Seq<char>, p: Palette) -> Seq<char> {
    join(yaml_rows(lines(s), p), seq!['\n'])
}

/// A scalar in colour shows the scalar, and with the plain palette it is
/// the scalar.
proof fn lemma_yaml_value_keeps(s: Seq<char>, p: Palette)
    requires
        no_escape(s),
        p.is_invisible(),
    ensures
        shows(yaml_value(s, p), s),
        yaml_value(s, Palette::plain()) == s,
{
    let q = Palette::plain();
    lemma_trim_parts(s);
    let lead = indent_of(s);
    let t = trim(s);
    let tail = tail_of(s);
    let a = lead.len() as int;
    let b = a + t.len();
    lemma_no_escape_part(s, 0, a);
    lemma_no_escape_part(s, a, b);
    lemma_no_escape_part(s, b, s.len() as int);
    assert(lead == s.subrange(0, a));
    assert(t == s.subrange(a, b));
    assert(tail == s.subrange(b, s.len() as int));
    if yaml_core(t, p) == t {
        lemma_shows_text(t);
    } else if first_is(t, '"') || first_is(t, '\'') {
        lemma_shows_tint(p.magenta, t, p.reset);
    } else if t == "true"@ || t == "false"@ || t == "null"@ || t == "~"@ || is_float_text(t) {
        lemma_shows_tint(p.yellow, t, p.reset);
    } else {
        lemma_shows_tint(p.magenta, t, p.reset);
    }
    assert(yaml_core(t, q) == t);
    lemma_shows_text(lead);
    lemma_shows_text(tail);
    lemma_shows_concat(lead, lead, yaml_core(t, p), t);
    lemma_shows_concat(lead + yaml_core(t, p), lead + t, tail, tail);
}

/// What precedes a key, in colour, shows what precedes the key, and with
/// the plain palette it is that text.
proof fn lemma_yaml_lead_keeps(lead: Seq<char>, p: Palette)
    requires
        no_escape(lead),
        p.is_invisible(),
    ensures
        shows(yaml_lead(lead, p), lead),
        yaml_lead(lead, Palette::plain()) == lead,
{
    let q = Palette::plain();
    let dash = span(lead, 0, CharSet::Except('-'));
    lemma_span(lead, 0, CharSet::Except('-'));
    if dash < lead.len() {
        let front = lead.take(dash);
        let back = lead.skip(dash + 1);
        lemma_no_escape_part(lead, 0, dash);
        lemma_no_escape_part(lead, dash + 1, lead.len() as int);
        assert(front == lead.subrange(0, dash));
        assert(back == lead.subrange(dash + 1, lead.len() as int));
        lemma_shows_text(front);
        lemma_shows_text(back);
        lemma_shows_tint(p.gray, seq!['-'], p.reset);
        lemma_shows_concat(front, front, p.gray + seq!['-'] + p.reset, seq!['-']);
        lemma_shows_concat(
            front + (p.gray + seq!['-'] + p.reset),
            front + seq!['-'],
            back,
            back,
        );
        assert(front + seq!['-'] + back == lead);
        assert(yaml_lead(lead, p) == front + (p.gray + seq!['-'] + p.reset) + back);
        assert(yaml_lead(lead, q) == front + seq!['-'] + back);
    } else {
        lemma_shows_text(lead);
    }
}

/// A line with a key, in colour, shows the line, and with the plain
/// palette it is the line.
proof fn lemma_yaml_entry_keeps(line: Seq<char>, colon: int, p: Palette)
    requires
        no_escape(line),
        p.is_invisible(),
        0 <= colon < line.len(),
        line[colon] == ':',
    ensures
        shows(yaml_entry(line, colon, p), line),
        yaml_entry(line, colon, Palette::plain()) == line,
{
    let q = Palette::plain();
    let before = line.take(colon);
    lemma_span(before, 0, CharSet::SpaceOrDash);
    let key = trim_start_of(before, CharSet::SpaceOrDash);
    let a = before.len() - key.len();
    let lead = before.take(a);
    let after = line.skip(colon + 1);
    assert(lead == line.subrange(0, a));
    assert(key == line.subrange(a, colon));
    assert(after == line.subrange(colon + 1, line.len() as int));
    lemma_no_escape_part(line, 0, a);
    lemma_no_escape_part(line, a, colon);
    lemma_no_escape_part(line, colon + 1, line.len() as int);
    lemma_yaml_lead_keeps(lead, p);
    lemma_yaml_value_keeps(after, p);
    lemma_shows_tint(p.cyan, key, p.reset);
    lemma_shows_tint(p.gray, seq![':'], p.reset);
    lemma_shows_concat(yaml_lead(lead, p), lead, p.cyan + key + p.reset, key);
    lemma_shows_concat(
        yaml_lead(lead, p) + (p.cyan + key + p.reset),
        lead + key,
        p.gray + seq![':'] + p.reset,
        seq![':'],
    );
    lemma_shows_concat(
        yaml_lead(lead, p) + (p.cyan + key + p.reset) + (p.gray + seq![':'] + p.reset),
        lead + key + seq![':'],
        yaml_value(after, p),
        after,
    );
    assert(lead + key + seq![':'] + after == line);
    assert(yaml_entry(line, colon, p) == yaml_lead(lead, p) + (p.cyan + key + p.reset) + (p.gray
        + seq![':'] + p.reset) + yaml_value(after, p));
    assert(yaml_entry(line, colon, q) == yaml_lead(lead, q) + key + seq![':'] + yaml_value(
        after,
        q,
    ));
}

/// A list item in colour shows the line, and with the plain palette it is
/// the line.
proof fn lemma_yaml_item_keeps(line: Seq<char>, p: Palette)
    requires
        no_escape(line),
        p.is_invisible(),
        first_is(trim(line), '-'),
    ensures
        shows(yaml_item(line, p), line),
        yaml_item(line, Palette::plain()) == line,
{
    let q = Palette::plain();
    lemma_trim_parts(line);
    let lead = indent_of(line);
    let a = lead.len() as int;
    let rest = line.skip(a + 1);
    assert(line[a] == trim(line)[0]);
    assert(lead == line.subrange(0, a));
    assert(rest == line.subrange(a + 1, line.len() as int));
    lemma_no_escape_part(line, 0, a);
    lemma_no_escape_part(line, a + 1, line.len() as int);
    lemma_yaml_value_keeps(rest, p);
    lemma_shows_text(lead);
    lemma_shows_tint(p.gray, seq!['-'], p.reset);
    lemma_shows_concat(lead, lead, p.gray + seq!['-'] + p.reset, seq!['-']);
    lemma_shows_concat(
        lead + (p.gray + seq!['-'] + p.reset),
        lead + seq!['-'],
        yaml_value(rest, p),
        rest,
    );
    assert(lead + seq!['-'] + rest == line);
    assert(yaml_item(line, p) == lead + (p.gray + seq!['-'] + p.reset) + yaml_value(rest, p));
    assert(yaml_item(line, q) == lead + seq!['-'] + yaml_value(rest, q));
}

/// A line in colour shows the line, and with the plain palette it is the
/// line.
proof fn lemma_yaml_line_keeps(line: Seq<char>, p: Palette)
    requires
        no_escape(line),
        p.is_invisible(),
    ensures
        shows(yaml_line(line, p), line),
        yaml_line(line, Palette::plain()) == line,
{
    let colon = span(line, 0, CharSet::Except(':'));
    lemma_span(line, 0, CharSet::Except(':'));
    if colon < line.len() {
        let key = trim_start_of(line.take(colon), CharSet::SpaceOrDash);
        if key.len() > 0 && !first_is(key, '#') {
            lemma_yaml_entry_keeps(line, colon, p);
        } else {
            lemma_shows_text(line);
        }
    } else if first_is(trim(line), '-') {
        lemma_yaml_item_keeps(line, p);
    } else {
        lemma_shows_text(line);
    }
}

/// Colouring alters no character of the text. For every text without an
/// escape character and every palette whose codes are invisible: once the
/// colour codes are removed, the coloured text is the lines of the text,
/// joined by line feeds; and with the plain palette the result is that text
/// itself.
pub proof fn lemma_yaml_colors_keep_text(s: Seq<char>, p: Palette)
    requires
        no_escape(s),
        p.is_invisible(),
    ensures
        strip_ansi(yaml_colored(s, p)) == join(lines(s), seq!['\n']),
        yaml_colored(s, Palette::plain()) == join(lines(s), seq!['\n']),
        strip_ansi(yaml_colored(s, p)) == yaml_colored(s, Palette::plain()),
{
    let ls = lines(s);
    lemma_lines_hold_no_escape(s, 0);
    assert forall|k: int| 0 <= k < ls.len() implies shows(#[trigger] yaml_rows(ls, p)[k], ls[k]) by {
        lemma_yaml_line_keeps(ls[k], p);
    }
    lemma_join_shows(yaml_rows(ls, p), ls);
    assert forall|k: int| 0 <= k < ls.len() implies #[trigger] yaml_rows(ls, Palette::plain())[k]
        == ls[k] by {
        lemma_yaml_line_keeps(ls[k], p);
    }
    assert(yaml_rows(ls, Palette::plain()) == ls);
}

/// Whether `t` is one of the words that YAML shows like a number.
fn is_yaml_word(t: &[char]) -> (b: bool)
    ensures
        b == (t@ == "true"@ || t@ == "false"@ || t@ == "null"@ || t@ == "~"@),
{
    spells(t, "true") || spells(t, "false") || spells(t, "null") || spells(t, "~")
}

/// Appends `text` between `color` and the code that ends a colour.
fn push_colored(out: &mut Vec<char>, color: &[char], text: &[char], paint: &Paint)
    ensures
        final(out)@ == old(out)@ + (color@ + text@ + paint@.reset),
{
    push_all(out, color);
    push_all(out, text);
    push_all(out, paint.reset.as_slice());
    assert(out@ == old(out)@ + (color@ + text@ + paint@.reset));
}

/// Appends a YAML scalar without white space around it, in its colour.
fn push_yaml_core(out: &mut Vec<char>, t: &[char], paint: &Paint)
    ensures
        final(out)@ == old(out)@ + yaml_core(t@, paint@),
{
    let n = t.len();
    if starts_with_char(t, '"') || starts_with_char(t, '\'') {
        push_colored(out, paint.magenta.as_slice(), t, paint);
    } else if is_yaml_word(t) || is_float(t) {
        push_colored(out, paint.yellow.as_slice(), t, paint);
    } else if n > 0 && skip_run(t, 0, CharSet::Except(':')) >= n {
        push_colored(out, paint.magenta.as_slice(), t, paint);
    } else {
        push_all(out, t);
    }
}

/// Appends a YAML scalar in its colour, with the white space around it.
fn push_yaml_value(out: &mut Vec<char>, s: &[char], paint: &Paint)
    ensures
        final(out)@ == old(out)@ + yaml_value(s@, paint@),
{
    push_all(out, leading_space(s));
    push_yaml_core(out, strip(s), paint);
    push_all(out, trailing_space(s));
    assert(out@ == old(out)@ + (indent_of(s@) + yaml_core(trim(s@), paint@) + tail_of(s@)));
}

/// Appends what precedes a key, with the first dash in gray.
fn push_yaml_lead(out: &mut Vec<char>, lead: &[char], paint: &Paint)
    ensures
        final(out)@ == old(out)@ + yaml_lead(lead@, paint@),
{
    let m = lead.len();
    let dash = skip_run(lead, 0, CharSet::Except('-'));
    if dash < m {
        push_all(out, &lead[0..dash]);
        push_all(out, paint.gray.as_slice());
        out.push('-');
        push_all(out, paint.reset.as_slice());
        push_all(out, &lead[dash + 1..m]);
    } else {
        push_all(out, lead);
    }
    assert(out@ == old(out)@ + yaml_lead(lead@, paint@));
}

/// Appends a key with its colon, in colour.
fn push_yaml_key(out: &mut Vec<char>, key: &[char], paint: &Paint)
    ensures
        final(out)@ == old(out)@ + (paint@.cyan + key@ + paint@.reset + paint@.gray + seq![':']
            + paint@.reset),
{
    push_all(out, paint.cyan.as_slice());
    push_all(out, key);
    push_all(out, paint.reset.as_slice());
    push_all(out, paint.gray.as_slice());
    out.push(':');
    push_all(out, paint.reset.as_slice());
    assert(out@ == old(out)@ + (paint@.cyan + key@ + paint@.reset + paint@.gray + seq![':']
        + paint@.reset));
}

/// Appends a line that has a key before the colon at `colon`.
fn push_yaml_entry(out: &mut Vec<char>, line: &[char], colon: usize, paint: &Paint)
    requires
        colon < line@.len(),
    ensures
        final(out)@ == old(out)@ + yaml_entry(line@, colon as int, paint@),
{
    let n = line.len();
    let before = &line[0..colon];
    let key = strip_start(before, CharSet::SpaceOrDash);
    proof {
        lemma_span(before@, 0, CharSet::SpaceOrDash);
    }
    let lead = &before[0..before.len() - key.len()];
    assert(before@ == line@.take(colon as int));
    assert(lead@ == before@.take(before@.len() - key@.len()));
    push_yaml_lead(out, lead, paint);
    push_yaml_key(out, key, paint);
    push_yaml_value(out, &line[colon + 1..n], paint);
}

/// Appends a list item: the indentation, the dash in gray, and what
/// follows the dash.
fn push_yaml_item(out: &mut Vec<char>, line: &[char], paint: &Paint)
    requires
        first_is(trim(line@), '-'),
    ensures
        final(out)@ == old(out)@ + yaml_item(line@, paint@),
{
    let n = line.len();
    let lead = leading_space(line);
    let a = lead.len();
    proof {
        lemma_trim_parts(line@);
    }
    push_all(out, lead);
    push_all(out, paint.gray.as_slice());
    out.push('-');
    push_all(out, paint.reset.as_slice());
    let ghost mid = out@;
    assert(mid == old(out)@ + (indent_of(line@) + paint@.gray + seq!['-'] + paint@.reset));
    push_yaml_value(out, &line[a + 1..n], paint);
}

/// One line of YAML in colour.
fn make_yaml_line(line: &[char], paint: &Paint) -> (out: Vec<char>)
    ensures
        out@ == yaml_line(line@, paint@),
{
    let mut out: Vec<char> = Vec::new();
    let n = line.len();
    let colon = skip_run(line, 0, CharSet::Except(':'));
    if colon < n {
        let key = strip_start(&line[0..colon], CharSet::SpaceOrDash);
        if key.len() > 0 && !starts_with_char(key, '#') {
            push_yaml_entry(&mut out, line, colon, paint);
        } else {
            push_all(&mut out, line);
        }
    } else if starts_with_char(strip(line), '-') {
        push_yaml_item(&mut out, line, paint);
    } else {
        push_all(&mut out, line);
    }
    out
}

/// Colours the lines of `s` with the codes of `paint`.
pub fn paint_yaml(s: &[char], paint: &Paint) -> (out: Vec<Vec<char>>)
    ensures
        rows(out@) == yaml_rows(lines(s@), paint@),
{
    let ls = split_lines(s);
    let n = ls.len();
    let mut out: Vec<Vec<char>> = Vec::new();
    let mut k: usize = 0;
    while k < n
        invariant
            n == ls@.len(),
            views(ls@) == lines(s@),
            k <= n,
            out@.len() == k,
            forall|j: int| 0 <= j < k ==> (#[trigger] out@[j])@ == yaml_line(lines(s@)[j], paint@),
        decreases n - k,
    {
        assert(views(ls@)[k as int] == ls@[k as int]@);
        out.push(make_yaml_line(ls[k], paint));
        k += 1;
    }
    assert(rows(out@) =~= yaml_rows(lines(s@), paint@));
    out
}

/// Colours YAML. On a line with a colon, what stands before the first colon
/// is a key, unless it is empty or a comment; a dash in front of the key is
/// coloured apart. A line without a colon that starts with a dash is a list
/// item. Any other line passes through. No character of the text is
/// altered: the palette gives the codes, and a plain one gives the lines as
/// they are.
pub fn colorize_yaml(s: &str, c: &Colors) -> (out: String)
    ensures
        out@ == yaml_colored(s@, c@),
{
    let paint = Paint::new(c);
    let chars = chars_of(s);
    let painted = paint_yaml(chars.as_slice(), &paint);
    string_of(join_rows(&painted).as_slice())
}

/// Colours a single YAML scalar.
pub fn colorize_yaml_value(s: &str, c: &Colors) -> (out: String)
    ensures
        out@ == yaml_value(s@, c@),
{
    let paint = Paint::new(c);
    let chars = chars_of(s);
    let mut out: Vec<char> = Vec::new();
    push_yaml_value(&mut out, chars.as_slice(), &paint);
    string_of(out.as_slice())
}

} // verus!
