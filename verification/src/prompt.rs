//! What the prompt of a checkpoint shows on request: the list of commands
//! and the full rendering, and the programs that can fill the clipboard.

use crate::lines::{lines, rows, split_lines, views};
use crate::palette::{Colors, Paint, Palette};
use crate::panel::{strings_of, texts};
use crate::text::{chars_of, push_all};
use vstd::prelude::*;

verus! {

/// `text` between `color` and the code that ends a colour, and `rest` behind.
pub open spec fn tinted(color: Seq<char>, text: Seq<char>, rest: Seq<char>, p: Palette) -> Seq<
    char,
> {
    color + text + p.reset + rest
}

/// A line made of `lead`, then `text` in `color`, then `rest`.
fn make_line(lead: &str, color: &[char], text: &str, rest: &str, paint: &Paint) -> (out: Vec<
    char,
>)
    ensures
        out@ == lead@ + tinted(color@, text@, rest@, paint@),
        lead@.len() == 0 ==> out@ == tinted(color@, text@, rest@, paint@),
{
    let l = chars_of(lead);
    let t = chars_of(text);
    let r = chars_of(rest);
    let mut out: Vec<char> = Vec::new();
    push_all(&mut out, l.as_slice());
    push_all(&mut out, color);
    push_all(&mut out, t.as_slice());
    push_all(&mut out, paint.reset.as_slice());
    push_all(&mut out, r.as_slice());
    assert(out@ == lead@ + tinted(color@, text@, rest@, paint@));
    out
}

/// The list of commands and settings, line by line.
pub open spec fn help_text(p: Palette) -> Seq<Seq<char>> {
    seq![
        Seq::empty(),
        tinted(p.yellow, "─── print-break Help ───"@, ""@, p),
        tinted(p.cyan, "Enter"@, "     Continue to next breakpoint"@, p),
        tinted(p.cyan, "m"@, "         Show full output (if truncated)"@, p),
        tinted(p.cyan, "t"@, "         Show stack trace"@, p),
        tinted(p.cyan, "c"@, "         Copy last value to clipboard"@, p),
        tinted(p.cyan, "s"@, "         Skip all remaining breakpoints"@, p),
        tinted(p.cyan, "q"@, "         Quit the program"@, p),
        tinted(p.cyan, "h / ?"@, "     Show this help"@, p),
        Seq::empty(),
        tinted(p.gray, "Environment variables:"@, ""@, p),
        "  "@ + tinted(p.cyan, "PRINT_BREAK=0"@, "          Disable all breakpoints"@, p),
        "  "@ + tinted(p.cyan, "PRINT_BREAK_DEPTH=N"@, "    Max nesting depth (default: 4)"@, p),
        "  "@ + tinted(
            p.cyan,
            "PRINT_BREAK_STYLE=X"@,
            "    Border style: rounded, sharp, double, ascii"@,
            p,
        ),
        tinted(p.yellow, "─────────────────────────"@, ""@, p),
        Seq::empty(),
    ]
}

/// The list of commands and settings.
pub fn help_lines(c: &Colors) -> (out: Vec<String>)
    ensures
        texts(out@) == help_text(c@),
{
    let paint = Paint::new(c);
    let cyan = paint.cyan.as_slice();
    let yellow = paint.yellow.as_slice();
    proof {
        reveal_strlit("");
    }
    let mut v: Vec<Vec<char>> = Vec::new();
    v.push(Vec::new());
    v.push(make_line("", yellow, "─── print-break Help ───", "", &paint));
    v.push(make_line("", cyan, "Enter", "     Continue to next breakpoint", &paint));
    v.push(make_line("", cyan, "m", "         Show full output (if truncated)", &paint));
    v.push(make_line("", cyan, "t", "         Show stack trace", &paint));
    v.push(make_line("", cyan, "c", "         Copy last value to clipboard", &paint));
    v.push(make_line("", cyan, "s", "         Skip all remaining breakpoints", &paint));
    v.push(make_line("", cyan, "q", "         Quit the program", &paint));
    v.push(make_line("", cyan, "h / ?", "     Show this help", &paint));
    v.push(Vec::new());
    v.push(make_line("", paint.gray.as_slice(), "Environment variables:", "", &paint));
    v.push(make_line("  ", cyan, "PRINT_BREAK=0", "          Disable all breakpoints", &paint));
    v.push(
        make_line("  ", cyan, "PRINT_BREAK_DEPTH=N", "    Max nesting depth (default: 4)", &paint),
    );
    v.push(
        make_line(
            "  ",
            cyan,
            "PRINT_BREAK_STYLE=X",
            "    Border style: rounded, sharp, double, ascii",
            &paint,
        ),
    );
    v.push(make_line("", yellow, "─────────────────────────", "", &paint));
    v.push(Vec::new());
    assert(rows(v@) =~= help_text(c@));
    strings_of(&v)
}

/// The full rendering as the `more` command shows it: an empty line, a
/// title, every line of the text in white, a rule, and an empty line.
pub open spec fn full_view(text: Seq<char>, p: Palette) -> Seq<Seq<char>> {
    seq![Seq::<char>::empty(), p.yellow + "─── Full Output ───"@ + p.reset] + Seq::new(
        lines(text).len(),
        |k: int| p.white + lines(text)[k] + p.reset,
    ) + seq![p.yellow + "───────────────────"@ + p.reset, Seq::<char>::empty()]
}

/// `text` between `color` and the code that ends a colour.
fn make_tinted(color: &[char], text: &[char], paint: &Paint) -> (out: Vec<char>)
    ensures
        out@ == color@ + text@ + paint@.reset,
{
    let mut out: Vec<char> = Vec::new();
    push_all(&mut out, color);
    push_all(&mut out, text);
    push_all(&mut out, paint.reset.as_slice());
    out
}

/// The lines that show the full rendering `text`.
pub fn full_output_lines(text: &str, c: &Colors) -> (out: Vec<String>)
    ensures
        texts(out@) == full_view(text@, c@),
{
    let paint = Paint::new(c);
    let chars = chars_of(text);
    let title = chars_of("─── Full Output ───");
    let rule = chars_of("───────────────────");
    let ls = split_lines(chars.as_slice());
    let n = ls.len();
    let ghost shown = lines(text@);
    let mut v: Vec<Vec<char>> = Vec::new();
    v.push(Vec::new());
    v.push(make_tinted(paint.yellow.as_slice(), title.as_slice(), &paint));
    let ghost head = seq![
        Seq::<char>::empty(),
        paint@.yellow + "─── Full Output ───"@ + paint@.reset,
    ];
    assert(rows(v@) =~= head);
    let mut k: usize = 0;
    while k < n
        invariant
            n == ls@.len(),
            views(ls@) == shown,
            k <= n,
            rows(v@) == head + Seq::new(k as nat, |j: int| paint@.white + shown[j] + paint@.reset),
        decreases n - k,
    {
        let ghost prev = rows(v@);
        assert(views(ls@)[k as int] == ls@[k as int]@);
        v.push(make_tinted(paint.white.as_slice(), ls[k], &paint));
        assert(rows(v@) =~= prev.push(paint@.white + shown[k as int] + paint@.reset));
        k += 1;
        assert(rows(v@) =~= head + Seq::new(
            k as nat,
            |j: int| paint@.white + shown[j] + paint@.reset,
        ));
    }
    let ghost mid = rows(v@);
    v.push(make_tinted(paint.yellow.as_slice(), rule.as_slice(), &paint));
    v.push(Vec::new());
    assert(rows(v@) =~= mid + seq![
        paint@.yellow + "───────────────────"@ + paint@.reset,
        Seq::<char>::empty(),
    ]);
    strings_of(&v)
}

/// The kinds of system that differ in how the clipboard is filled.
#[derive(Clone, Copy, Debug, PartialEq, Eq, Structural)]
pub enum Platform {
    MacOs,
    Windows,
    Other,
}

/// A program that takes the text for the clipboard on its input, and the
/// arguments that it is started with.
#[derive(Debug)]
pub struct ClipboardCommand {
    pub program: &'static str,
    pub args: Vec<&'static str>,
}

/// The programs to try on a platform, in the order in which to try them.
pub open spec fn clipboard_programs(platform: Platform) -> Seq<Seq<char>> {
    match platform {
        Platform::MacOs => seq!["pbcopy"@],
        Platform::Windows => seq!["clip"@],
        Platform::Other => seq!["xclip"@, "xsel"@, "wl-copy"@],
    }
}

/// The arguments of the program at position `k` of the programs to try.
pub open spec fn clipboard_args(platform: Platform, k: int) -> Seq<Seq<char>> {
    if platform == Platform::Other && k == 0 {
        seq!["-selection"@, "clipboard"@]
    } else if platform == Platform::Other && k == 1 {
        seq!["--clipboard"@, "--input"@]
    } else {
        Seq::empty()
    }
}

/// What each argument of `v` holds.
pub open spec fn arg_texts(v: Seq<&'static str>) -> Seq<Seq<char>> {
    Seq::new(v.len(), |k: int| v[k]@)
}

/// The programs that can fill the clipboard on a platform, in the order in
/// which to try them, each with its arguments.
pub fn clipboard_commands(platform: Platform) -> (out: Vec<ClipboardCommand>)
    ensures
        out@.len() == clipboard_programs(platform).len(),
        forall|k: int|
            0 <= k < out@.len() ==> (#[trigger] out@[k]).program@ == clipboard_programs(
                platform,
            )[k] && arg_texts(out@[k].args@) == clipboard_args(platform, k),
{
    let mut out: Vec<ClipboardCommand> = Vec::new();
    match platform {
        Platform::MacOs => {
            out.push(ClipboardCommand { program: "pbcopy", args: Vec::new() });
            assert(arg_texts(out@[0].args@) =~= clipboard_args(platform, 0));
        },
        Platform::Windows => {
            out.push(ClipboardCommand { program: "clip", args: Vec::new() });
            assert(arg_texts(out@[0].args@) =~= clipboard_args(platform, 0));
        },
        Platform::Other => {
            let mut first: Vec<&'static str> = Vec::new();
            first.push("-selection");
            first.push("clipboard");
            let mut second: Vec<&'static str> = Vec::new();
            second.push("--clipboard");
            second.push("--input");
            out.push(ClipboardCommand { program: "xclip", args: first });
            out.push(ClipboardCommand { program: "xsel", args: second });
            out.push(ClipboardCommand { program: "wl-copy", args: Vec::new() });
            assert(arg_texts(out@[0].args@) =~= clipboard_args(platform, 0));
            assert(arg_texts(out@[1].args@) =~= clipboard_args(platform, 1));
            assert(arg_texts(out@[2].args@) =~= clipboard_args(platform, 2));
        },
    }
    out
}

} // verus!
