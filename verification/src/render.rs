//! From the debug text of a value to what the panel shows: detection of the
//! format, the display rendering, and the full text kept for later.

use crate::ansi::{
    lemma_no_escape_concat, lemma_no_escape_part, lemma_shows_concat, lemma_shows_text,
    lemma_shows_tint, lemma_strip_concat, lemma_strip_plain, no_escape, shows, strip_ansi,
};
use crate::colorize::json::{json_colored, lemma_json_colors_preserve_text, paint_json};
use crate::colorize::structure::{
    debug_colored, fits_depth, lemma_debug_colors_show_plain, lemma_high_limit_fits,
    lemma_limit_out_of_reach, paint_debug,
};
use crate::colorize::toml::{lemma_toml_colors_keep_text, paint_toml, toml_colored};
use crate::colorize::yaml::{lemma_yaml_colors_keep_text, paint_yaml, yaml_colored};
use crate::formats::{
    json_document, json_parse, json_pretty, json_print, toml_document, toml_parse, toml_pretty,
    toml_print, yaml_check_mapping, yaml_check_sequence, yaml_document, yaml_is_mapping,
    yaml_is_sequence, yaml_parse, yaml_pretty, yaml_print,
};
use crate::layout::{
    lemma_truncated_starts_like_full, lemma_wrapped_holds_no_escape, truncate_text, truncated,
    wrap_text, wrapped, MAX_LINES,
};
use crate::lines::{byte_len, join, join_rows, lines, replace, replace_all, utf8_len};
use crate::number::{decimal, lemma_decimal_holds_no_escape, push_decimal};
use crate::palette::{Colors, Paint, Palette};
use crate::text::{
    chars_of, contains, first_is, has_text, indent_of, last_is, lemma_trim_parts, push_all,
    starts_with_char, string_of, strip, strip_end, trim, CharSet,
};
use vstd::prelude::*;

verus! {

/// What the debug text of a value was found to be.
#[derive(Clone, Copy, Debug, PartialEq, Eq, Structural)]
pub enum DetectedFormat {
    Json,
    Toml,
    Yaml,
    PlainText,
    Structure,
}

/// The width to which plain text is wrapped in the panel.
pub const DISPLAY_WIDTH: usize = 80;

/// The width to which plain text is wrapped in the full text.
pub const FULL_WIDTH: usize = 100;

/// Whether `debug` is the debug text of a string: it stands in double quotes.
pub open spec fn is_quoted(debug: Seq<char>) -> bool {
    debug.len() >= 2 && debug[0] == '"' && debug[debug.len() - 1] == '"'
}

/// The text of a string, from what stands between the quotes of its debug
/// text: four passes, each over the result of the one before, replace the
/// escaped quote, the escaped line feed, the escaped tab and the escaped
/// backslash, in this order.
pub open spec fn unescape(inner: Seq<char>) -> Seq<char> {
    let quotes = replace(inner, "\\\""@, "\""@);
    let feeds = replace(quotes, "\\n"@, "\n"@);
    let tabs = replace(feeds, "\\t"@, "\t"@);
    replace(tabs, "\\\\"@, "\\"@)
}

/// Whether `text` is tried as JSON: trimmed, it starts with a brace or a bracket.
pub open spec fn json_candidate(text: Seq<char>) -> bool {
    first_is(trim(text), '{') || first_is(trim(text), '[')
}

/// Whether `text` is tried as TOML: trimmed, it holds ` = `, or a closing
/// bracket at the end of a line, or starts with a bracket.
pub open spec fn toml_candidate(text: Seq<char>) -> bool {
    contains(trim(text), " = "@) || contains(trim(text), "]\n"@) || first_is(trim(text), '[')
}

/// Whether `text` is tried as YAML: trimmed, it holds a colon that a space
/// or a line feed follows.
pub open spec fn yaml_candidate(text: Seq<char>) -> bool {
    contains(trim(text), ": "@) || contains(trim(text), ":\n"@)
}

/// `text` read as JSON and written out again, if it is a candidate and
/// both succeed.
pub open spec fn json_reading(text: Seq<char>) -> Option<Seq<char>> {
    if json_candidate(text) && json_document(text) is Some {
        json_pretty(json_document(text)->0)
    } else {
        None
    }
}

/// `text` read as TOML and written out again, if it is a candidate and
/// both succeed.
pub open spec fn toml_reading(text: Seq<char>) -> Option<Seq<char>> {
    if toml_candidate(text) && toml_document(text) is Some {
        toml_pretty(toml_document(text)->0)
    } else {
        None
    }
}

/// `text` read as YAML and written out again, if it is a candidate, both
/// succeed, and the document is a mapping or a sequence: a lone scalar is
/// no YAML worth showing as such.
pub open spec fn yaml_reading(text: Seq<char>) -> Option<Seq<char>> {
    if yaml_candidate(text) && yaml_document(text) is Some && (yaml_is_mapping(
        yaml_document(text)->0,
    ) || yaml_is_sequence(yaml_document(text)->0)) {
        yaml_pretty(yaml_document(text)->0)
    } else {
        None
    }
}

/// What `debug` is found to be, and the text that goes with it. The debug
/// text of anything but a string is structural and is kept as it is. The
/// text of a string is tried as JSON, then as TOML, then as YAML, and the
/// first that reads it gives the format and the text written out again. A
/// string that none of them reads is plain text.
pub open spec fn detection(debug: Seq<char>) -> (DetectedFormat, Seq<char>) {
    if !is_quoted(debug) {
        (DetectedFormat::Structure, debug)
    } else {
        let text = unescape(debug.subrange(1, debug.len() - 1));
        if json_reading(text) is Some {
            (DetectedFormat::Json, json_reading(text)->0)
        } else if toml_reading(text) is Some {
            (DetectedFormat::Toml, toml_reading(text)->0)
        } else if yaml_reading(text) is Some {
            (DetectedFormat::Yaml, yaml_reading(text)->0)
        } else {
            (DetectedFormat::PlainText, text)
        }
    }
}

/// Undoes the four escapes of a string's debug text.
pub fn unescape_text(inner: &[char]) -> (out: Vec<char>)
    ensures
        out@ == unescape(inner@),
{
    let quote_from = chars_of("\\\"");
    let quote_to = chars_of("\"");
    let feed_from = chars_of("\\n");
    let feed_to = chars_of("\n");
    let tab_from = chars_of("\\t");
    let tab_to = chars_of("\t");
    let slash_from = chars_of("\\\\");
    let slash_to = chars_of("\\");
    let quotes = replace_all(inner, quote_from.as_slice(), quote_to.as_slice());
    let feeds = replace_all(quotes.as_slice(), feed_from.as_slice(), feed_to.as_slice());
    let tabs = replace_all(feeds.as_slice(), tab_from.as_slice(), tab_to.as_slice());
    replace_all(tabs.as_slice(), slash_from.as_slice(), slash_to.as_slice())
}

/// Reads `text` as JSON and writes it out again.
pub fn read_json(text: &[char]) -> (out: Option<String>)
    ensures
        out is Some == json_reading(text@) is Some,
        out matches Some(t) ==> json_reading(text@) == Some(t@),
{
    let t = strip(text);
    if !(starts_with_char(t, '{') || starts_with_char(t, '[')) {
        return None;
    }
    let whole = string_of(text);
    match json_parse(whole.as_str()) {
        Some(doc) => json_print(&doc),
        None => None,
    }
}

/// Reads `text` as TOML and writes it out again.
pub fn read_toml(text: &[char]) -> (out: Option<String>)
    ensures
        out is Some == toml_reading(text@) is Some,
        out matches Some(t) ==> toml_reading(text@) == Some(t@),
{
    let t = strip(text);
    if !(has_text(t, " = ") || has_text(t, "]\n") || starts_with_char(t, '[')) {
        return None;
    }
    let whole = string_of(text);
    match toml_parse(whole.as_str()) {
        Some(doc) => toml_print(&doc),
        None => None,
    }
}

/// Reads `text` as YAML and writes it out again.
pub fn read_yaml(text: &[char]) -> (out: Option<String>)
    ensures
        out is Some == yaml_reading(text@) is Some,
        out matches Some(t) ==> yaml_reading(text@) == Some(t@),
{
    let t = strip(text);
    if !(has_text(t, ": ") || has_text(t, ":\n")) {
        return None;
    }
    let whole = string_of(text);
    match yaml_parse(whole.as_str()) {
        Some(doc) => {
            if yaml_check_mapping(&doc) || yaml_check_sequence(&doc) {
                yaml_print(&doc)
            } else {
                None
            }
        },
        None => None,
    }
}

/// Finds out what the debug text of a value is. Nothing fails: a text that
/// a format does not read is no text of that format.
pub fn detect(debug: &str) -> (found: (DetectedFormat, String))
    ensures
        found.0 == detection(debug@).0,
        found.1@ == detection(debug@).1,
{
    let d = chars_of(debug);
    let n = d.len();
    if !(n >= 2 && d[0] == '"' && d[n - 1] == '"') {
        return (DetectedFormat::Structure, string_of(d.as_slice()));
    }
    let text = unescape_text(&d.as_slice()[1..n - 1]);
    if let Some(pretty) = read_json(text.as_slice()) {
        return (DetectedFormat::Json, pretty);
    }
    if let Some(pretty) = read_toml(text.as_slice()) {
        return (DetectedFormat::Toml, pretty);
    }
    if let Some(pretty) = read_yaml(text.as_slice()) {
        return (DetectedFormat::Yaml, pretty);
    }
    (DetectedFormat::PlainText, string_of(text.as_slice()))
}

/// The line that names a format above its rendering.
pub open spec fn header(label: Seq<char>, p: Palette) -> Seq<char> {
    p.gray + label + p.reset + seq!['\n']
}

/// The label of plain text: it tells the number of bytes.
pub open spec fn plain_label(text: Seq<char>) -> Seq<char> {
    "(string, "@ + decimal(utf8_len(text)) + " chars)"@
}

/// What the panel shows for `text` of the format `format`, before it is
/// cut: for a serialization format, a line that names it and the text in
/// colour; for plain text, a line with its size and the text wrapped; for
/// structural text, the text in colour with deep blocks collapsed.
pub open spec fn shown(
    format: DetectedFormat,
    text: Seq<char>,
    p: Palette,
    max_depth: nat,
) -> Seq<char> {
    match format {
        DetectedFormat::Json => header("(json)"@, p) + json_colored(text, p),
        DetectedFormat::Toml => header("(toml)"@, p) + toml_colored(text, p),
        DetectedFormat::Yaml => header("(yaml)"@, p) + yaml_colored(trim(text), p),
        DetectedFormat::PlainText => header(plain_label(text), p) + wrapped(
            text,
            DISPLAY_WIDTH as nat,
        ),
        DetectedFormat::Structure => debug_colored(text, p, max_depth),
    }
}

/// What the panel shows for `text` of the format `format`: the rendering,
/// cut if it is too long.
pub open spec fn display(
    format: DetectedFormat,
    text: Seq<char>,
    p: Palette,
    max_depth: nat,
) -> Seq<char> {
    truncated(shown(format, text, p, max_depth), p)
}

/// The depth limit of the full text: no block reaches it, since there are
/// never more blocks open than lines were read.
pub const NO_LIMIT: usize = usize::MAX;

/// The full text kept for `text` of the format `format`: without colour,
/// with nothing collapsed and nothing cut. Structural text is rendered as
/// for the panel, with the plain palette and a depth limit that no block
/// reaches.
pub open spec fn full_text(format: DetectedFormat, text: Seq<char>) -> Seq<char> {
    match format {
        DetectedFormat::Json => text,
        DetectedFormat::Toml => text,
        DetectedFormat::Yaml => trim(text),
        DetectedFormat::PlainText => wrapped(text, FULL_WIDTH as nat),
        DetectedFormat::Structure => debug_colored(text, Palette::plain(), NO_LIMIT as nat),
    }
}

/// Appends the line that names a format.
fn push_header(out: &mut Vec<char>, label: &[char], paint: &Paint)
    ensures
        final(out)@ == old(out)@ + header(label@, paint@),
{
    push_all(out, paint.gray.as_slice());
    push_all(out, label);
    push_all(out, paint.reset.as_slice());
    out.push('\n');
    assert(out@ == old(out)@ + header(label@, paint@));
}

/// The text in colour, for one of the serialization formats.
fn push_body(out: &mut Vec<char>, format: DetectedFormat, text: &[char], paint: &Paint)
    requires
        format == DetectedFormat::Json || format == DetectedFormat::Toml || format
            == DetectedFormat::Yaml,
    ensures
        final(out)@ == old(out)@ + match format {
            DetectedFormat::Json => json_colored(text@, paint@),
            DetectedFormat::Toml => toml_colored(text@, paint@),
            _ => yaml_colored(text@, paint@),
        },
{
    match format {
        DetectedFormat::Json => {
            let body = paint_json(text, paint);
            push_all(out, body.as_slice());
        },
        DetectedFormat::Toml => {
            let body = paint_toml(text, paint);
            push_all(out, join_rows(&body).as_slice());
        },
        _ => {
            let body = paint_yaml(text, paint);
            push_all(out, join_rows(&body).as_slice());
        },
    }
}

/// Renders `text` of the format `format`, before the cut.
pub fn render_shown(format: DetectedFormat, text: &[char], paint: &Paint, max_depth: usize) -> (out:
    Vec<char>)
    ensures
        out@ == shown(format, text@, paint@, max_depth as nat),
{
    let mut out: Vec<char> = Vec::new();
    match format {
        DetectedFormat::Json => {
            let label = chars_of("(json)");
            push_header(&mut out, label.as_slice(), paint);
            push_body(&mut out, format, text, paint);
        },
        DetectedFormat::Toml => {
            let label = chars_of("(toml)");
            push_header(&mut out, label.as_slice(), paint);
            push_body(&mut out, format, text, paint);
        },
        DetectedFormat::Yaml => {
            let label = chars_of("(yaml)");
            push_header(&mut out, label.as_slice(), paint);
            push_body(&mut out, format, strip(text), paint);
        },
        DetectedFormat::PlainText => {
            let mut label = chars_of("(string, ");
            let close = chars_of(" chars)");
            push_decimal(&mut label, byte_len(text));
            push_all(&mut label, close.as_slice());
            assert(label@ == plain_label(text@));
            push_header(&mut out, label.as_slice(), paint);
            let body = wrap_text(text, DISPLAY_WIDTH);
            push_all(&mut out, strip_end(body.as_slice(), CharSet::Space));
        },
        DetectedFormat::Structure => {
            let rows = paint_debug(text, paint, max_depth);
            let body = join_rows(&rows);
            push_all(&mut out, body.as_slice());
        },
    }
    out
}

/// Renders what the panel shows for a text whose format is known: `text`
/// is what detection gave for the format, or, for the structural format, the
/// indented debug text of the value.
pub fn render_display(format: DetectedFormat, text: &str, c: &Colors, max_depth: usize) -> (out:
    String)
    ensures
        out@ == display(format, text@, c@, max_depth as nat),
{
    let paint = Paint::new(c);
    let chars = chars_of(text);
    let body = render_shown(format, chars.as_slice(), &paint, max_depth);
    let cut = truncate_text(body.as_slice(), &paint);
    string_of(cut.as_slice())
}

/// Renders the full text kept for a text whose format is known.
pub fn render_full(format: DetectedFormat, text: &str) -> (out: String)
    ensures
        out@ == full_text(format, text@),
{
    let chars = chars_of(text);
    match format {
        DetectedFormat::Yaml => string_of(strip(chars.as_slice())),
        DetectedFormat::PlainText => {
            let body = wrap_text(chars.as_slice(), FULL_WIDTH);
            string_of(strip_end(body.as_slice(), CharSet::Space))
        },
        DetectedFormat::Structure => {
            let plain = Colors::get(false);
            let rows = paint_debug(chars.as_slice(), &Paint::new(&plain), NO_LIMIT);
            string_of(join_rows(&rows).as_slice())
        },
        _ => string_of(chars.as_slice()),
    }
}

/// What the panel shows for a value with the debug text `debug` and the
/// indented debug text `pretty`.
pub open spec fn value_display(
    debug: Seq<char>,
    pretty: Seq<char>,
    p: Palette,
    max_depth: nat,
) -> Seq<char> {
    let found = detection(debug);
    if found.0 == DetectedFormat::Structure {
        display(found.0, pretty, p, max_depth)
    } else {
        display(found.0, found.1, p, max_depth)
    }
}

/// The full text kept for a value with the debug text `debug` and the
/// indented debug text `pretty`.
pub open spec fn value_full(debug: Seq<char>, pretty: Seq<char>) -> Seq<char> {
    let found = detection(debug);
    if found.0 == DetectedFormat::Structure {
        full_text(found.0, pretty)
    } else {
        full_text(found.0, found.1)
    }
}

/// A label in gray and the line feed behind it show the label and the line
/// feed.
proof fn lemma_header_shows(label: Seq<char>, p: Palette)
    requires
        no_escape(label),
        p.is_invisible(),
    ensures
        shows(header(label, p), header(label, Palette::plain())),
{
    lemma_shows_tint(p.gray, label, p.reset);
    lemma_shows_text(seq!['\n']);
    lemma_shows_concat(p.gray + label + p.reset, label, seq!['\n'], seq!['\n']);
    assert(header(label, Palette::plain()) == label + seq!['\n']);
}

/// The palette decides the colour codes and nothing else. For every format,
/// every text without an escape character, every palette whose codes are
/// invisible and every depth limit: once the colour codes are removed, what
/// the panel shows in colour, before the cut, is what it shows with the
/// plain palette. For JSON, TOML and YAML that is the label and the lines of
/// the text itself. The same holds of what the panel shows in the end,
/// where neither rendering is cut.
pub proof fn lemma_colors_alter_no_character(
    format: DetectedFormat,
    text: Seq<char>,
    p: Palette,
    max_depth: nat,
)
    requires
        no_escape(text),
        p.is_invisible(),
    ensures
        strip_ansi(shown(format, text, p, max_depth)) == shown(
            format,
            text,
            Palette::plain(),
            max_depth,
        ),
        format == DetectedFormat::Json ==> strip_ansi(shown(format, text, p, max_depth))
            == "(json)"@ + seq!['\n'] + text,
        format == DetectedFormat::Toml ==> strip_ansi(shown(format, text, p, max_depth))
            == "(toml)"@ + seq!['\n'] + join(lines(text), seq!['\n']),
        format == DetectedFormat::Yaml ==> strip_ansi(shown(format, text, p, max_depth))
            == "(yaml)"@ + seq!['\n'] + join(lines(trim(text)), seq!['\n']),
        format == DetectedFormat::Json && lines(shown(format, text, p, max_depth)).len()
            <= MAX_LINES ==> strip_ansi(display(format, text, p, max_depth)) == "(json)"@ + seq![
            '\n',
        ] + text,
        lines(shown(format, text, p, max_depth)).len() <= MAX_LINES && lines(
            shown(format, text, Palette::plain(), max_depth),
        ).len() <= MAX_LINES ==> strip_ansi(display(format, text, p, max_depth)) == display(
            format,
            text,
            Palette::plain(),
            max_depth,
        ),
{
    let q = Palette::plain();
    reveal_strlit("(json)");
    reveal_strlit("(toml)");
    reveal_strlit("(yaml)");
    match format {
        DetectedFormat::Json => {
            lemma_header_shows("(json)"@, p);
            lemma_json_colors_preserve_text(text, p);
            lemma_strip_concat(header("(json)"@, p), json_colored(text, p), false);
        },
        DetectedFormat::Toml => {
            lemma_header_shows("(toml)"@, p);
            lemma_toml_colors_keep_text(text, p);
            lemma_strip_concat(header("(toml)"@, p), toml_colored(text, p), false);
        },
        DetectedFormat::Yaml => {
            lemma_header_shows("(yaml)"@, p);
            lemma_trim_parts(text);
            let a = indent_of(text).len() as int;
            lemma_no_escape_part(text, a, a + trim(text).len());
            assert(trim(text) == text.subrange(a, a + trim(text).len()));
            lemma_yaml_colors_keep_text(trim(text), p);
            lemma_strip_concat(header("(yaml)"@, p), yaml_colored(trim(text), p), false);
        },
        DetectedFormat::PlainText => {
            reveal_strlit("(string, ");
            reveal_strlit(" chars)");
            lemma_decimal_holds_no_escape(utf8_len(text));
            lemma_no_escape_concat("(string, "@, decimal(utf8_len(text)));
            lemma_no_escape_concat("(string, "@ + decimal(utf8_len(text)), " chars)"@);
            lemma_header_shows(plain_label(text), p);
            lemma_wrapped_holds_no_escape(text, DISPLAY_WIDTH as nat);
            lemma_strip_plain(wrapped(text, DISPLAY_WIDTH as nat));
            lemma_strip_concat(
                header(plain_label(text), p),
                wrapped(text, DISPLAY_WIDTH as nat),
                false,
            );
        },
        DetectedFormat::Structure => {
            lemma_debug_colors_show_plain(text, p, max_depth);
        },
    }
}

/// The full text begins like what the panel shows. For a value that is no
/// string, shown with the plain palette, of which no block reaches the depth
/// limit and whose first lines end in no carriage return: the panel shows no
/// more lines than the full text has, and line for line the same ones, up to
/// the cut.
pub proof fn lemma_full_text_extends_display(debug: Seq<char>, pretty: Seq<char>, max_depth: nat)
    requires
        !is_quoted(debug),
        fits_depth(lines(pretty), max_depth),
        lines(pretty).len() <= NO_LIMIT,
        forall|k: int|
            0 <= k < lines(value_full(debug, pretty)).len() && k < MAX_LINES ==> !last_is(
                #[trigger] lines(value_full(debug, pretty))[k],
                '\r',
            ),
    ensures
        value_display(debug, pretty, Palette::plain(), max_depth) == truncated(
            value_full(debug, pretty),
            Palette::plain(),
        ),
        lines(value_display(debug, pretty, Palette::plain(), max_depth)).len() <= lines(
            value_full(debug, pretty),
        ).len(),
        forall|k: int|
            0 <= k < lines(value_display(debug, pretty, Palette::plain(), max_depth)).len() && k
                < MAX_LINES ==> lines(value_display(debug, pretty, Palette::plain(), max_depth))[k]
                == lines(value_full(debug, pretty))[k],
{
    let p = Palette::plain();
    lemma_high_limit_fits(lines(pretty), NO_LIMIT as nat);
    lemma_limit_out_of_reach(lines(pretty), max_depth, NO_LIMIT as nat, p);
    lemma_truncated_starts_like_full(value_full(debug, pretty), p);
}

/// Renders what the panel shows for a value, from its two debug texts.
pub fn format_text(debug: &str, pretty: &str, c: &Colors, max_depth: usize) -> (out: String)
    ensures
        out@ == value_display(debug@, pretty@, c@, max_depth as nat),
{
    let found = detect(debug);
    if found.0 == DetectedFormat::Structure {
        render_display(found.0, pretty, c, max_depth)
    } else {
        render_display(found.0, found.1.as_str(), c, max_depth)
    }
}

/// Renders the full text kept for a value, from its two debug texts.
pub fn format_text_full(debug: &str, pretty: &str) -> (out: String)
    ensures
        out@ == value_full(debug@, pretty@),
{
    let found = detect(debug);
    if found.0 == DetectedFormat::Structure {
        render_full(found.0, pretty)
    } else {
        render_full(found.0, found.1.as_str())
    }
}

/// The `Debug` formatting of `value` on one line, by `format!`. Nothing is
/// claimed of the text; what the `Debug` implementation of `T` does, it does
/// here.
#[verifier::external_body]
fn debug_text<T: std::fmt::Debug>(value: &T) -> (text: String) {
    format!("{:?}", value)
}

/// The `Debug` formatting of `value` with line breaks and indentation, by
/// `format!`. Nothing is claimed of the text.
#[verifier::external_body]
fn debug_pretty<T: std::fmt::Debug>(value: &T) -> (text: String) {
    format!("{:#?}", value)
}

/// Renders a value for the panel. A string that holds JSON, TOML or YAML is
/// shown written out anew and in colour, any other string as wrapped text,
/// and every other value as structural debug text. A rendering of more than
/// fifty lines is cut.
pub fn format_value<T: std::fmt::Debug>(value: &T, c: &Colors, max_depth: usize) -> (out: String)
    ensures
        exists|debug: Seq<char>, pretty: Seq<char>|
            out@ == value_display(debug, pretty, c@, max_depth as nat),
{
    let debug = debug_text(value);
    let found = detect(debug.as_str());
    if found.0 == DetectedFormat::Structure {
        let pretty = debug_pretty(value);
        let out = render_display(found.0, pretty.as_str(), c, max_depth);
        assert(out@ == value_display(debug@, pretty@, c@, max_depth as nat));
        out
    } else {
        let out = render_display(found.0, found.1.as_str(), c, max_depth);
        assert(out@ == value_display(debug@, debug@, c@, max_depth as nat));
        out
    }
}

/// Renders the full text of a value: what `format_value` shows, without
/// colour, with nothing collapsed and nothing cut.
pub fn format_value_full<T: std::fmt::Debug>(value: &T) -> (out: String)
    ensures
        exists|debug: Seq<char>, pretty: Seq<char>| out@ == value_full(debug, pretty),
{
    let debug = debug_text(value);
    let found = detect(debug.as_str());
    if found.0 == DetectedFormat::Structure {
        let pretty = debug_pretty(value);
        let out = render_full(found.0, pretty.as_str());
        assert(out@ == value_full(debug@, pretty@));
        out
    } else {
        let out = render_full(found.0, found.1.as_str());
        assert(out@ == value_full(debug@, debug@));
        out
    }
}

} // verus!
