//! Colouring of pretty-printed JSON: one scan from left to right, with a
//! stack that remembers whether each open bracket is an object or an array.

use crate::ansi::{
    invisible, lemma_strip_code, lemma_strip_text, no_escape, open_after, strip_ansi,
    strip_from,
};
use crate::palette::{Colors, Paint, Palette};
use crate::text::{
    chars_of, lemma_span, push_all, same, skip_run, span, string_of, CharSet,
};
use vstd::prelude::*;

verus! {

/// What the scan remembers between two characters.
pub struct JsonScan {
    /// Whether the scan is inside a string literal.
    pub in_string: bool,
    /// Whether the next string literal is a key.
    pub is_key: bool,
    /// For each open bracket, outermost first: whether it opened an object.
    pub stack: Seq<bool>,
}

impl JsonScan {
    /// The scan before the first character: outside any string and any
    /// bracket, expecting a key.
    pub open spec fn start() -> JsonScan {
        JsonScan { in_string: false, is_key: true, stack: Seq::empty() }
    }
}

/// One step of the scan: the text it emits, where it goes on, and what it
/// remembers then.
pub struct JsonStep {
    pub text: Seq<char>,
    pub next: int,
    pub scan: JsonScan,
}

/// A punctuation character in its colour.
pub open spec fn punct(c: char, p: Palette) -> Seq<char> {
    p.gray + seq![c] + p.reset
}

/// The step at the first letter of a possible `true`, `false` or `null`:
/// the letter and up to `tail.len()` characters behind it are consumed, and
/// coloured if those characters are `tail`.
pub open spec fn literal_step(
    s: Seq<char>,
    i: int,
    tail: Seq<char>,
    scan: JsonScan,
    p: Palette,
) -> JsonStep {
    let e = if i + 1 + tail.len() <= s.len() {
        i + 1 + tail.len()
    } else {
        s.len() as int
    };
    let word = s.subrange(i, e);
    JsonStep {
        text: if s.subrange(i + 1, e) == tail {
            p.yellow + word + p.reset
        } else {
            word
        },
        next: e,
        scan,
    }
}

/// The step of the scan at position `i` of `s`.
pub open spec fn json_step(s: Seq<char>, i: int, scan: JsonScan, p: Palette) -> JsonStep {
    let c = s[i];
    if c == '"' {
        if !scan.in_string {
            JsonStep {
                text: (if scan.is_key {
                    p.cyan
                } else {
                    p.magenta
                }) + seq!['"'],
                next: i + 1,
                scan: JsonScan { in_string: true, ..scan },
            }
        } else {
            JsonStep {
                text: seq!['"'] + p.reset,
                next: i + 1,
                scan: JsonScan { in_string: false, ..scan },
            }
        }
    } else if scan.in_string {
        JsonStep { text: seq![c], next: i + 1, scan }
    } else if c == ':' {
        JsonStep { text: punct(c, p), next: i + 1, scan: JsonScan { is_key: false, ..scan } }
    } else if c == ',' {
        JsonStep {
            text: punct(c, p),
            next: i + 1,
            scan: JsonScan {
                is_key: if scan.stack.len() > 0 {
                    scan.stack.last()
                } else {
                    true
                },
                ..scan
            },
        }
    } else if c == '{' || c == '[' {
        JsonStep {
            text: punct(c, p),
            next: i + 1,
            scan: JsonScan { is_key: c == '{', stack: scan.stack.push(c == '{'), ..scan },
        }
    } else if c == '}' || c == ']' {
        JsonStep {
            text: punct(c, p),
            next: i + 1,
            scan: JsonScan {
                stack: if scan.stack.len() > 0 {
                    scan.stack.drop_last()
                } else {
                    scan.stack
                },
                ..scan
            },
        }
    } else if CharSet::Digit.has(c) || c == '-' || c == '.' {
        let e = span(s, i + 1, CharSet::NumberTail);
        JsonStep { text: p.yellow + s.subrange(i, e) + p.reset, next: e, scan }
    } else if c == 't' {
        literal_step(s, i, "rue"@, scan, p)
    } else if c == 'f' {
        literal_step(s, i, "alse"@, scan, p)
    } else if c == 'n' {
        literal_step(s, i, "ull"@, scan, p)
    } else {
        JsonStep { text: seq![c], next: i + 1, scan }
    }
}

/// A step consumes at least one character and stays inside the text.
pub proof fn lemma_json_step_advances(s: Seq<char>, i: int, scan: JsonScan, p: Palette)
    requires
        0 <= i < s.len(),
    ensures
        i < json_step(s, i, scan, p).next <= s.len(),
{
    lemma_span(s, i + 1, CharSet::NumberTail);
}

/// The coloured text of `s` from position `i` on, for a scan in state `scan`.
pub open spec fn json_paint(s: Seq<char>, i: int, scan: JsonScan, p: Palette) -> Seq<char>
    decreases s.len() - i,
{
    if i < 0 || i >= s.len() {
        Seq::empty()
    } else {
        proof {
            lemma_json_step_advances(s, i, scan, p);
        }
        let step = json_step(s, i, scan, p);
        step.text + json_paint(s, step.next, step.scan, p)
    }
}

/// The JSON text `s` with the codes of `p`: keys in cyan, string values in
/// magenta, numbers and `true`, `false`, `null` in yellow, punctuation in
/// gray. The palette decides the colour codes and nothing else.
pub open spec fn json_colored(s: Seq<char>, p: Palette) -> Seq<char> {
    json_paint(s, 0, JsonScan::start(), p)
}

/// A step shows exactly the characters that it consumes.
proof fn lemma_json_step_strip(s: Seq<char>, i: int, scan: JsonScan, p: Palette, rest: Seq<char>)
    requires
        0 <= i < s.len(),
        no_escape(s),
        p.is_invisible(),
    ensures
        strip_from(json_step(s, i, scan, p).text + rest, false) == s.subrange(
            i,
            json_step(s, i, scan, p).next,
        ) + strip_from(rest, false),
        open_after(json_step(s, i, scan, p).text + rest, false) == open_after(rest, false),
{
    lemma_json_step_advances(s, i, scan, p);
    let step = json_step(s, i, scan, p);
    let word = s.subrange(i, step.next);
    assert(no_escape(word));
    // Every step emits `pre + word + post`, where each of `pre` and `post`
    // is a code of the palette or empty.
    let (pre, post) = lemma_json_step_shape(s, i, scan, p);
    assert(invisible(Seq::<char>::empty()));
    assert(pre.len() == 0 ==> pre == Seq::<char>::empty());
    assert(post.len() == 0 ==> post == Seq::<char>::empty());
    assert(step.text + rest == pre + (word + (post + rest)));
    lemma_strip_code(pre, word + (post + rest));
    lemma_strip_text(word, post + rest);
    lemma_strip_code(post, rest);
}

/// Every step emits the characters that it consumes, between two codes
/// of the palette or none.
proof fn lemma_json_step_shape(s: Seq<char>, i: int, scan: JsonScan, p: Palette) -> (r: (
    Seq<char>,
    Seq<char>,
))
    requires
        0 <= i < s.len(),
        p.is_invisible(),
    ensures
        json_step(s, i, scan, p).text == r.0 + s.subrange(i, json_step(s, i, scan, p).next) + r.1,
        r.0.len() == 0 || invisible(r.0),
        r.1.len() == 0 || invisible(r.1),
        p == Palette::plain() ==> r.0.len() == 0 && r.1.len() == 0,
{
    lemma_json_step_advances(s, i, scan, p);
    let step = json_step(s, i, scan, p);
    let word = s.subrange(i, step.next);
    let none = Seq::<char>::empty();
    let c = s[i];
    let one = seq![c];
    if step.next == i + 1 {
        assert(word == one);
    }
    let (pre, post): (Seq<char>, Seq<char>) = if c == '"' {
        if !scan.in_string {
            (if scan.is_key {
                p.cyan
            } else {
                p.magenta
            }, none)
        } else {
            (none, p.reset)
        }
    } else if scan.in_string {
        (none, none)
    } else if c == ':' || c == ',' || c == '{' || c == '[' || c == '}' || c == ']' {
        (p.gray, p.reset)
    } else if CharSet::Digit.has(c) || c == '-' || c == '.' {
        (p.yellow, p.reset)
    } else if c == 't' || c == 'f' || c == 'n' {
        let tail = if c == 't' {
            "rue"@
        } else if c == 'f' {
            "alse"@
        } else {
            "ull"@
        };
        if s.subrange(i + 1, step.next) == tail {
            (p.yellow, p.reset)
        } else {
            (none, none)
        }
    } else {
        (none, none)
    };
    assert(step.text == pre + word + post);
    (pre, post)
}

/// Once the colour codes are removed, the coloured text is the text that
/// was coloured, from `i` on.
pub proof fn lemma_json_paint_strip(s: Seq<char>, i: int, scan: JsonScan, p: Palette)
    requires
        0 <= i <= s.len(),
        no_escape(s),
        p.is_invisible(),
    ensures
        strip_ansi(json_paint(s, i, scan, p)) == s.skip(i),
        !open_after(json_paint(s, i, scan, p), false),
    decreases s.len() - i,
{
    if i < s.len() {
        lemma_json_step_advances(s, i, scan, p);
        let step = json_step(s, i, scan, p);
        let rest = json_paint(s, step.next, step.scan, p);
        lemma_json_paint_strip(s, step.next, step.scan, p);
        lemma_json_step_strip(s, i, scan, p, rest);
        assert(s.subrange(i, step.next) + s.skip(step.next) == s.skip(i));
    } else {
        assert(s.skip(i) == Seq::<char>::empty());
    }
}

/// With the plain palette the coloured text is the text itself, from `i` on.
pub proof fn lemma_json_paint_plain(s: Seq<char>, i: int, scan: JsonScan)
    requires
        0 <= i <= s.len(),
    ensures
        json_paint(s, i, scan, Palette::plain()) == s.skip(i),
    decreases s.len() - i,
{
    let q = Palette::plain();
    if i < s.len() {
        lemma_json_step_advances(s, i, scan, q);
        let step = json_step(s, i, scan, q);
        lemma_json_paint_plain(s, step.next, step.scan);
        let (pre, post) = lemma_json_step_shape(s, i, scan, q);
        assert(step.text == s.subrange(i, step.next));
        assert(s.subrange(i, step.next) + s.skip(step.next) == s.skip(i));
    } else {
        assert(s.skip(i) == Seq::<char>::empty());
    }
}

/// Colouring alters no displayed character: for every text without an escape
/// character, and every palette whose codes are invisible, removing the
/// colour codes from the coloured text gives the text back; and with the
/// plain palette the result is the text itself.
pub proof fn lemma_json_colors_preserve_text(s: Seq<char>, p: Palette)
    requires
        no_escape(s),
        p.is_invisible(),
    ensures
        strip_ansi(json_colored(s, p)) == s,
        json_colored(s, Palette::plain()) == s,
{
    lemma_json_paint_strip(s, 0, JsonScan::start(), p);
    lemma_json_paint_plain(s, 0, JsonScan::start());
    assert(s.skip(0) == s);
}

/// Appends a punctuation character in its colour.
fn push_punct(out: &mut Vec<char>, c: char, paint: &Paint)
    ensures
        final(out)@ == old(out)@ + punct(c, paint@),
{
    push_all(out, paint.gray.as_slice());
    out.push(c);
    push_all(out, paint.reset.as_slice());
    assert(out@ == old(out)@ + punct(c, paint@));
}

/// Appends the step at the first letter of a possible literal, and returns
/// where the scan goes on.
fn push_literal(out: &mut Vec<char>, s: &[char], i: usize, tail: &[char], paint: &Paint) -> (next:
    usize)
    requires
        i < s@.len(),
    ensures
        i < next <= s@.len(),
        forall|scan: JsonScan|
            #![trigger literal_step(s@, i as int, tail@, scan, paint@)]
            {
                let step = literal_step(s@, i as int, tail@, scan, paint@);
                final(out)@ == old(out)@ + step.text && next == step.next
            },
{
    let n = s.len();
    let e = if tail.len() <= n - i - 1 {
        i + 1 + tail.len()
    } else {
        n
    };
    if same(&s[i + 1..e], tail) {
        push_all(out, paint.yellow.as_slice());
        push_all(out, &s[i..e]);
        push_all(out, paint.reset.as_slice());
        assert(out@ == old(out)@ + (paint@.yellow + s@.subrange(i as int, e as int)
            + paint@.reset));
    } else {
        push_all(out, &s[i..e]);
    }
    e
}

/// Colours the JSON text `s` with the codes of `paint`.
pub fn paint_json(s: &[char], paint: &Paint) -> (out: Vec<char>)
    ensures
        out@ == json_paint(s@, 0, JsonScan::start(), paint@),
{
    let n = s.len();
    let rue = chars_of("rue");
    let alse = chars_of("alse");
    let ull = chars_of("ull");
    let mut out: Vec<char> = Vec::new();
    let mut in_string = false;
    let mut is_key = true;
    let mut stack: Vec<bool> = Vec::new();
    let mut i: usize = 0;
    while i < n
        invariant
            n == s@.len(),
            i <= n,
            rue@ == "rue"@,
            alse@ == "alse"@,
            ull@ == "ull"@,
            out@ + json_paint(s@, i as int, JsonScan { in_string, is_key, stack: stack@ }, paint@)
                == json_paint(s@, 0, JsonScan::start(), paint@),
        decreases n - i,
    {
        let ghost scan = JsonScan { in_string, is_key, stack: stack@ };
        let ghost step = json_step(s@, i as int, scan, paint@);
        let ghost before = out@;
        proof {
            lemma_json_step_advances(s@, i as int, scan, paint@);
        }
        let c = s[i];
        if c == '"' {
            if !in_string {
                if is_key {
                    push_all(&mut out, paint.cyan.as_slice());
                } else {
                    push_all(&mut out, paint.magenta.as_slice());
                }
                out.push('"');
                in_string = true;
            } else {
                out.push('"');
                push_all(&mut out, paint.reset.as_slice());
                in_string = false;
            }
            i += 1;
        } else if in_string {
            out.push(c);
            i += 1;
        } else if c == ':' {
            push_punct(&mut out, c, paint);
            is_key = false;
            i += 1;
        } else if c == ',' {
            push_punct(&mut out, c, paint);
            is_key = if stack.len() > 0 {
                stack[stack.len() - 1]
            } else {
                true
            };
            i += 1;
        } else if c == '{' || c == '[' {
            push_punct(&mut out, c, paint);
            stack.push(c == '{');
            is_key = c == '{';
            i += 1;
        } else if c == '}' || c == ']' {
            push_punct(&mut out, c, paint);
            if stack.len() > 0 {
                stack.pop();
            }
            i += 1;
        } else if CharSet::Digit.holds(c) || c == '-' || c == '.' {
            let e = skip_run(s, i + 1, CharSet::NumberTail);
            push_all(&mut out, paint.yellow.as_slice());
            push_all(&mut out, &s[i..e]);
            push_all(&mut out, paint.reset.as_slice());
            i = e;
        } else if c == 't' {
            i = push_literal(&mut out, s, i, rue.as_slice(), paint);
        } else if c == 'f' {
            i = push_literal(&mut out, s, i, alse.as_slice(), paint);
        } else if c == 'n' {
            i = push_literal(&mut out, s, i, ull.as_slice(), paint);
        } else {
            out.push(c);
            i += 1;
        }
        proof {
            assert(out@ == before + step.text);
            assert(i == step.next);
            assert(JsonScan { in_string, is_key, stack: stack@ } == step.scan);
            let rest = json_paint(s@, step.next, step.scan, paint@);
            assert(before + (step.text + rest) == (before + step.text) + rest);
        }
    }
    out
}

/// Colours pretty-printed JSON. Keys are told from string values by the
/// innermost open bracket: after `{` and after a comma inside an object the
/// next string is a key, after `[` and after a comma inside an array it is a
/// value. No character of the text is altered: the palette gives the codes,
/// and a plain one gives the text as it is.
pub fn colorize_json(s: &str, c: &Colors) -> (out: String)
    ensures
        out@ == json_colored(s@, c@),
{
    let paint = Paint::new(c);
    let chars = chars_of(s);
    let painted = paint_json(chars.as_slice(), &paint);
    string_of(painted.as_slice())
}

} // verus!
