//! The call stack, as the `trace` command shows it: the frames of the
//! program, without those of this library, of the capture and of the
//! language runtime, fifteen at most.

use crate::lines::rows;
use crate::number::{decimal, push_decimal};
use crate::palette::{Colors, Paint, Palette};
use crate::panel::{strings_of, texts};
use crate::text::{
    chars_of, contains, has_text, push_all, push_repeat, repeat, skip_run_back, span_back,
    CharSet,
};
use std::path::Path;
use vstd::prelude::*;

verus! {

/// The number of frames after which the trace is cut.
pub const MAX_FRAMES: usize = 15;

/// One symbol of the call stack, as plain values.
pub struct StackSymbol {
    /// The name of the function, if it is known.
    pub name: Option<String>,
    /// The path of the source file, if it is known.
    pub file: Option<String>,
    /// The line in the source file, if it is known.
    pub line: Option<u32>,
}

/// A symbol of the call stack, as contracts see it: a path that is not
/// known is empty, a line that is not known is zero.
pub struct SymbolView {
    pub name: Option<Seq<char>>,
    pub file: Seq<char>,
    pub line: nat,
}

impl View for StackSymbol {
    type V = SymbolView;

    open spec fn view(&self) -> SymbolView {
        SymbolView {
            name: match self.name {
                Some(name) => Some(name@),
                None => None,
            },
            file: match self.file {
                Some(file) => file@,
                None => Seq::empty(),
            },
            line: match self.line {
                Some(line) => line as nat,
                None => 0,
            },
        }
    }
}

/// What each symbol of `v` is, as contracts see it.
pub open spec fn symbol_views(v: Seq<StackSymbol>) -> Seq<SymbolView> {
    Seq::new(v.len(), |k: int| v[k]@)
}

/// `backtrace::Backtrace::new`: the call stack at the call, with every
/// symbol that was resolved as its name, file and line. The stack depends on
/// who calls, so nothing is claimed of the result.
#[verifier::external_body]
fn capture_symbols() -> (symbols: Vec<StackSymbol>) {
    let trace = backtrace::Backtrace::new();
    let mut symbols = Vec::new();
    for frame in trace.frames() {
        for symbol in frame.symbols() {
            symbols.push(StackSymbol {
                name: symbol.name().as_ref().map(ToString::to_string),
                file: symbol.filename().map(Path::display).as_ref().map(ToString::to_string),
                line: symbol.lineno(),
            });
        }
    }
    symbols
}

/// Whether a function of this name belongs to this library or to the
/// capture of the stack.
pub open spec fn is_internal(name: Seq<char>) -> bool {
    contains(name, "print_break::"@) || contains(name, "backtrace::"@)
}

/// Whether a function of this name belongs to the language runtime.
pub open spec fn is_runtime(name: Seq<char>) -> bool {
    contains(name, "std::"@) || contains(name, "core::"@) || contains(name, "__rust"@)
}

/// The last part of a path: what follows its last slash.
pub open spec fn file_name(path: Seq<char>) -> Seq<char> {
    path.skip(span_back(path, path.len() as int, CharSet::Except('/')))
}

/// `text` behind as many spaces as it lacks to `width` characters.
pub open spec fn pad_left(text: Seq<char>, width: nat) -> Seq<char> {
    if text.len() < width {
        repeat(' ', (width - text.len()) as nat) + text
    } else {
        text
    }
}

/// The line of the trace that names a frame.
pub open spec fn frame_line(count: nat, name: Seq<char>, p: Palette) -> Seq<char> {
    p.gray + pad_left(decimal(count), 3) + seq!['.'] + p.reset + seq![' '] + p.cyan + name
        + p.reset
}

/// The line of the trace that tells where a frame stands in the source.
pub open spec fn source_line(file: Seq<char>, line: nat, p: Palette) -> Seq<char> {
    "      "@ + p.gray + "at "@ + file_name(file) + seq![':'] + decimal(line) + p.reset
}

/// The line that ends a trace which was cut.
pub open spec fn cut_line(p: Palette) -> Seq<char> {
    p.gray + "     ... (truncated)"@ + p.reset
}

/// A trace in progress.
pub struct TraceScan {
    /// The lines so far.
    pub lines: Seq<Seq<char>>,
    /// Whether a frame of the program was reached.
    pub relevant: bool,
    /// How many frames are shown.
    pub count: nat,
}

/// The trace after one more symbol. A symbol without a name, or of this
/// library or of the capture, is passed over. The frames of the program
/// begin at the first name that does not mention this library. From there
/// on every frame that is not of the language runtime is shown, with its
/// place in the source if that is known, until fifteen are shown.
pub open spec fn trace_step(scan: TraceScan, symbol: SymbolView, p: Palette) -> TraceScan {
    if scan.count >= MAX_FRAMES || symbol.name is None || is_internal(symbol.name->0) {
        scan
    } else {
        let name = symbol.name->0;
        let relevant = scan.relevant || !contains(name, "print_break"@);
        if !relevant || is_runtime(name) {
            TraceScan { relevant, ..scan }
        } else {
            let named = scan.lines.push(frame_line(scan.count, name, p));
            let placed = if symbol.file.len() > 0 && symbol.line > 0 {
                named.push(source_line(symbol.file, symbol.line, p))
            } else {
                named
            };
            TraceScan {
                lines: if scan.count + 1 >= MAX_FRAMES {
                    placed.push(cut_line(p))
                } else {
                    placed
                },
                relevant,
                count: scan.count + 1,
            }
        }
    }
}

/// The trace after the symbols `symbols`, innermost first.
pub open spec fn trace_fold(symbols: Seq<SymbolView>, p: Palette) -> TraceScan
    decreases symbols.len(),
{
    if symbols.len() == 0 {
        TraceScan { lines: Seq::empty(), relevant: false, count: 0 }
    } else {
        trace_step(trace_fold(symbols.drop_last(), p), symbols.last(), p)
    }
}

/// The lines that show the call stack `symbols`: an empty line, a title,
/// the frames, a rule, and an empty line.
pub open spec fn trace_lines(symbols: Seq<SymbolView>, p: Palette) -> Seq<Seq<char>> {
    seq![Seq::<char>::empty(), p.yellow + "─── Stack Trace ───"@ + p.reset] + trace_fold(
        symbols,
        p,
    ).lines + seq![p.yellow + "───────────────────"@ + p.reset, Seq::<char>::empty()]
}

/// The line of the trace that names a frame.
fn make_frame_line(count: usize, name: &[char], paint: &Paint) -> (out: Vec<char>)
    ensures
        out@ == frame_line(count as nat, name@, paint@),
{
    let mut digits: Vec<char> = Vec::new();
    push_decimal(&mut digits, count as u128);
    let mut out: Vec<char> = Vec::new();
    push_all(&mut out, paint.gray.as_slice());
    if digits.len() < 3 {
        push_repeat(&mut out, ' ', (3 - digits.len()) as u128);
    }
    push_all(&mut out, digits.as_slice());
    out.push('.');
    push_all(&mut out, paint.reset.as_slice());
    out.push(' ');
    push_all(&mut out, paint.cyan.as_slice());
    push_all(&mut out, name);
    push_all(&mut out, paint.reset.as_slice());
    assert(out@ == frame_line(count as nat, name@, paint@));
    out
}

/// The line of the trace that tells where a frame stands in the source.
fn make_source_line(file: &[char], line: u32, paint: &Paint) -> (out: Vec<char>)
    ensures
        out@ == source_line(file@, line as nat, paint@),
{
    let indent = chars_of("      ");
    let at = chars_of("at ");
    let n = file.len();
    let start = skip_run_back(file, n, CharSet::Except('/'));
    let mut out: Vec<char> = Vec::new();
    push_all(&mut out, indent.as_slice());
    push_all(&mut out, paint.gray.as_slice());
    push_all(&mut out, at.as_slice());
    push_all(&mut out, &file[start..n]);
    out.push(':');
    push_decimal(&mut out, line as u128);
    push_all(&mut out, paint.reset.as_slice());
    assert(out@ == source_line(file@, line as nat, paint@));
    out
}

/// A line of the title or of the rule, in yellow.
fn make_title(text: &str, paint: &Paint) -> (out: Vec<char>)
    ensures
        out@ == paint@.yellow + text@ + paint@.reset,
{
    let chars = chars_of(text);
    let mut out: Vec<char> = Vec::new();
    push_all(&mut out, paint.yellow.as_slice());
    push_all(&mut out, chars.as_slice());
    push_all(&mut out, paint.reset.as_slice());
    out
}

/// The line that ends a trace which was cut.
fn make_cut_line(paint: &Paint) -> (out: Vec<char>)
    ensures
        out@ == cut_line(paint@),
{
    let text = chars_of("     ... (truncated)");
    let mut out: Vec<char> = Vec::new();
    push_all(&mut out, paint.gray.as_slice());
    push_all(&mut out, text.as_slice());
    push_all(&mut out, paint.reset.as_slice());
    out
}

/// Appends what one symbol adds to the trace, and returns whether a frame
/// of the program was reached and how many frames are shown.
fn push_line_group(
    out: &mut Vec<Vec<char>>,
    Ghost(head): Ghost<Seq<Seq<char>>>,
    symbol: &StackSymbol,
    relevant: bool,
    count: usize,
    paint: &Paint,
) -> (next: (bool, usize))
    requires
        count <= MAX_FRAMES,
        head.len() <= rows(old(out)@).len(),
        rows(old(out)@).take(head.len() as int) == head,
    ensures
        next.1 <= MAX_FRAMES,
        ({
            let lines = rows(old(out)@).skip(head.len() as int);
            let scan = TraceScan { lines, relevant, count: count as nat };
            let step = trace_step(scan, symbol@, paint@);
            &&& rows(final(out)@) == head + step.lines
            &&& next.0 == step.relevant
            &&& next.1 == step.count
        }),
{
    assert(rows(out@) =~= head + rows(out@).skip(head.len() as int));
    let ghost before = rows(out@);
    if count >= MAX_FRAMES {
        return (relevant, count);
    }
    let name = match &symbol.name {
        Some(name) => chars_of(name.as_str()),
        None => {
            return (relevant, count);
        },
    };
    let text = name.as_slice();
    if has_text(text, "print_break::") || has_text(text, "backtrace::") {
        return (relevant, count);
    }
    let reached = relevant || !has_text(text, "print_break");
    if !reached || has_text(text, "std::") || has_text(text, "core::") || has_text(text, "__rust") {
        return (reached, count);
    }
    let named = make_frame_line(count, text, paint);
    out.push(named);
    assert(rows(out@) =~= before.push(frame_line(count as nat, name@, paint@)));
    let file = match &symbol.file {
        Some(file) => chars_of(file.as_str()),
        None => Vec::new(),
    };
    let line = match symbol.line {
        Some(line) => line,
        None => 0,
    };
    if file.len() > 0 && line > 0 {
        let ghost prev = rows(out@);
        let placed = make_source_line(file.as_slice(), line, paint);
        out.push(placed);
        assert(rows(out@) =~= prev.push(source_line(file@, line as nat, paint@)));
    }
    if count + 1 >= MAX_FRAMES {
        let ghost prev = rows(out@);
        let cut = make_cut_line(paint);
        out.push(cut);
        assert(rows(out@) =~= prev.push(cut_line(paint@)));
    }
    (reached, count + 1)
}

/// The lines that show a call stack, given innermost frame first.
pub fn trace_report(symbols: &Vec<StackSymbol>, c: &Colors) -> (out: Vec<String>)
    ensures
        texts(out@) == trace_lines(symbol_views(symbols@), c@),
{
    let paint = Paint::new(c);
    let ghost all = symbol_views(symbols@);
    let mut body: Vec<Vec<char>> = Vec::new();
    body.push(Vec::new());
    body.push(make_title("─── Stack Trace ───", &paint));
    let ghost head = seq![
        Seq::<char>::empty(),
        paint@.yellow + "─── Stack Trace ───"@ + paint@.reset,
    ];
    assert(rows(body@) =~= head);
    let mut relevant = false;
    let mut count: usize = 0;
    let mut k: usize = 0;
    assert(all.take(0) == Seq::<SymbolView>::empty());
    while k < symbols.len()
        invariant
            k <= symbols@.len(),
            all == symbol_views(symbols@),
            count <= MAX_FRAMES,
            trace_fold(all.take(k as int), paint@).relevant == relevant,
            trace_fold(all.take(k as int), paint@).count == count,
            rows(body@) == head + trace_fold(all.take(k as int), paint@).lines,
        decreases symbols@.len() - k,
    {
        proof {
            assert(all.take(k + 1).drop_last() == all.take(k as int));
            assert(all.take(k + 1).last() == symbols@[k as int]@);
            let done = trace_fold(all.take(k as int), paint@).lines;
            assert(rows(body@).take(head.len() as int) =~= head);
            assert(rows(body@).skip(head.len() as int) =~= done);
        }
        let next = push_line_group(&mut body, Ghost(head), &symbols[k], relevant, count, &paint);
        relevant = next.0;
        count = next.1;
        k += 1;
    }
    assert(all.take(k as int) == all);
    let ghost mid = rows(body@);
    body.push(make_title("───────────────────", &paint));
    body.push(Vec::new());
    assert(rows(body@) =~= mid + seq![
        paint@.yellow + "───────────────────"@ + paint@.reset,
        Seq::<char>::empty(),
    ]);
    strings_of(&body)
}

/// The lines that show the call stack of the caller. The stack is taken as
/// it is found, so the lines are those of some stack.
pub fn stack_trace(c: &Colors) -> (out: Vec<String>)
    ensures
        exists|symbols: Seq<SymbolView>| texts(out@) == trace_lines(symbols, c@),
{
    let symbols = capture_symbols();
    let out = trace_report(&symbols, c);
    assert(texts(out@) == trace_lines(symbol_views(symbols@), c@));
    out
}

} // verus!
