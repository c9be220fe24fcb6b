//! Rendering of structural debug text: nested records, collections and
//! variants, one line at a time, with blocks beyond a depth collapsed.

use crate::ansi::{
    lemma_no_escape_part, lemma_shows_concat, lemma_shows_text, lemma_shows_tint, no_escape,
    shows, strip_ansi,
};
use crate::lines::{
    byte_len, join, join_rows, lemma_join_shows, lemma_lines_hold_no_escape, lines, rows,
    split_lines, utf8_len, views,
};
use crate::number::{is_float, is_float_text};
use crate::palette::{Colors, Paint, Palette};
use crate::text::{
    chars_of, ends_with, ends_with_char, find, finishes_with, first_is, indent_of, last_is,
    leading_space, lemma_find_from, lemma_span, lemma_span_back, push_all, search, spells,
    starts_with_char, string_of, strip_end, strip_start, trim_end_of, trim_start, CharSet,
};
use vstd::prelude::*;

verus! {

/// Whether the line `t`, without its indentation, opens a block: it ends
/// with `{` or `[`.
pub open spec fn opens(t: Seq<char>) -> bool {
    last_is(t, '{') || last_is(t, '[')
}

/// Whether the line `t`, without its indentation, closes a block: it
/// starts with `}`, `]` or `)`.
pub open spec fn closes(t: Seq<char>) -> bool {
    first_is(t, '}') || first_is(t, ']') || first_is(t, ')')
}

/// Whether the line `t` is shown as a closing delimiter.
pub open spec fn ends_block(t: Seq<char>) -> bool {
    closes(t) || ends_with(t, "},"@) || ends_with(t, "],"@) || ends_with(t, "),"@)
}

/// A scalar in its colour: strings in magenta, numbers and booleans in
/// yellow, anything else in white. Commas at the end are set apart, and one
/// comma is shown behind the value, in gray, if there was any.
pub open spec fn value_colored(s: Seq<char>, p: Palette) -> Seq<char> {
    let t = trim_end_of(s, CharSet::Only(','));
    let comma = if last_is(s, ',') {
        p.gray + seq![','] + p.reset
    } else {
        Seq::empty()
    };
    let color = if first_is(t, '"') {
        p.magenta
    } else if is_float_text(t) || (first_is(t, '-') && is_float_text(t.skip(1))) {
        p.yellow
    } else if t == "true"@ || t == "false"@ {
        p.yellow
    } else {
        p.white
    };
    color + t + p.reset + comma
}

/// The mark of one level of nesting.
pub open spec fn guide(p: Palette) -> Seq<char> {
    p.gray + seq!['│'] + p.reset + seq![' ']
}

/// The marks of `level` levels of nesting.
pub open spec fn guides(level: nat, p: Palette) -> Seq<char>
    decreases level,
{
    if level == 0 {
        Seq::empty()
    } else {
        guides((level - 1) as nat, p) + guide(p)
    }
}

/// The nesting level that the indentation of `line` shows: one level for
/// every four bytes of white space in front.
pub open spec fn level_of(line: Seq<char>) -> nat {
    utf8_len(indent_of(line)) / 4
}

/// The name in front of the delimiter on a line that opens a block.
pub open spec fn block_name(t: Seq<char>) -> Seq<char> {
    trim_end_of(t, CharSet::Opener)
}

/// What stands for a block that is not expanded.
pub open spec fn collapsed(t: Seq<char>, p: Palette) -> Seq<char> {
    if block_name(t).len() > 0 {
        p.green + block_name(t) + p.reset + seq![' '] + p.gray + "{ ... }"@ + p.reset
    } else {
        p.gray + "[ ... ]"@ + p.reset
    }
}

/// A line that opens a block which is expanded.
pub open spec fn opened(t: Seq<char>, p: Palette) -> Seq<char> {
    if block_name(t).len() > 0 {
        p.green + block_name(t) + p.reset + seq![' '] + p.gray + seq![t.last()] + p.reset
    } else {
        p.gray + seq![t.last()] + p.reset
    }
}

/// A line that opens no block: a closing delimiter, a field with its value,
/// or a lone value.
pub open spec fn inner_line(t: Seq<char>, p: Palette) -> Seq<char> {
    if ends_block(t) {
        p.gray + t + p.reset
    } else {
        match find(t, ": "@) {
            Some(k) => p.cyan + t.take(k) + p.reset + p.gray + ": "@ + value_colored(
                t.skip(k + 2),
                p,
            ),
            None => value_colored(t, p),
        }
    }
}

/// What the renderer remembers between two lines.
pub struct DebugScan {
    /// How many blocks are open.
    pub depth: nat,
    /// While a collapsed block hides its lines: the depth at which it was
    /// collapsed.
    pub skip: Option<nat>,
}

/// What one line contributes: the text shown for it, if any, and what the
/// renderer remembers behind it.
pub struct DebugStep {
    pub shown: Option<Seq<char>>,
    pub scan: DebugScan,
}

/// The depth at `line`: one less than before if the line closes a block,
/// and never below zero.
pub open spec fn depth_at(line: Seq<char>, scan: DebugScan) -> nat {
    depth_in(trim_start(line), scan.depth)
}

/// Whether `line` is hidden by a collapsed block: the depth at the line has
/// not come back below the depth at which the block was collapsed.
pub open spec fn hidden(line: Seq<char>, scan: DebugScan) -> bool {
    scan.skip matches Some(floor) && depth_at(line, scan) >= floor
}

/// The step that the renderer takes at `line`.
pub open spec fn debug_step(line: Seq<char>, scan: DebugScan, max_depth: nat, p: Palette)
    -> DebugStep {
    let t = trim_start(line);
    let depth = depth_at(line, scan);
    let after = if opens(t) {
        depth + 1
    } else {
        depth
    };
    if hidden(line, scan) {
        DebugStep { shown: None, scan: DebugScan { depth: after, skip: scan.skip } }
    } else if opens(t) && depth >= max_depth {
        DebugStep {
            shown: Some(guides(level_of(line), p) + collapsed(t, p)),
            scan: DebugScan { depth: after, skip: Some(depth) },
        }
    } else if opens(t) {
        DebugStep {
            shown: Some(guides(level_of(line), p) + opened(t, p)),
            scan: DebugScan { depth: after, skip: None },
        }
    } else {
        DebugStep {
            shown: Some(guides(level_of(line), p) + inner_line(t, p)),
            scan: DebugScan { depth: after, skip: None },
        }
    }
}

/// A rendering in progress: the lines shown so far, and what the renderer
/// remembers.
pub struct DebugRender {
    pub shown: Seq<Seq<char>>,
    pub scan: DebugScan,
}

impl DebugRender {
    /// Before the first line: nothing shown, no open block, nothing hidden.
    pub open spec fn start() -> DebugRender {
        DebugRender { shown: Seq::empty(), scan: DebugScan { depth: 0, skip: None } }
    }
}

/// The rendering `from`, carried on over the lines `ls`.
pub open spec fn debug_fold(ls: Seq<Seq<char>>, from: DebugRender, max_depth: nat, p: Palette)
    -> DebugRender
    decreases ls.len(),
{
    if ls.len() == 0 {
        from
    } else {
        let before = debug_fold(ls.drop_last(), from, max_depth, p);
        let step = debug_step(ls.last(), before.scan, max_depth, p);
        DebugRender {
            shown: match step.shown {
                Some(shown) => before.shown.push(shown),
                None => before.shown,
            },
            scan: step.scan,
        }
    }
}

/// The structural debug text `s` rendered with the codes of `p`: every
/// block that opens at depth `max_depth` or deeper is collapsed, and the lines
/// that are shown are joined by line feeds. The palette decides the colour
/// codes and nothing else: with a plain palette the same lines are shown,
/// with the same guides and the same markers, and without codes.
pub open spec fn debug_colored(s: Seq<char>, p: Palette, max_depth: nat) -> Seq<char> {
    join(debug_fold(lines(s), DebugRender::start(), max_depth, p).shown, seq!['\n'])
}

/// The depth at a line `t` without indentation, when `depth` blocks were
/// open before it.
pub open spec fn depth_in(t: Seq<char>, depth: nat) -> nat {
    if closes(t) && depth > 0 {
        (depth - 1) as nat
    } else {
        depth
    }
}

/// The number of open blocks behind the lines `ls`, when `depth` blocks were
/// open before them: one less at a line that closes a block, though never
/// below zero, and then one more at a line that opens one.
pub open spec fn depth_after(ls: Seq<Seq<char>>, depth: nat) -> nat
    decreases ls.len(),
{
    if ls.len() == 0 {
        depth
    } else {
        let t = trim_start(ls.last());
        let at = depth_in(t, depth_after(ls.drop_last(), depth));
        if opens(t) {
            at + 1
        } else {
            at
        }
    }
}

/// Whether the lines `body`, reached with `depth` open blocks, all lie at
/// depth `floor` or deeper.
pub open spec fn stays_inside(body: Seq<Seq<char>>, depth: nat, floor: nat) -> bool
    decreases body.len(),
{
    if body.len() == 0 {
        true
    } else {
        &&& stays_inside(body.drop_last(), depth, floor)
        &&& depth_in(trim_start(body.last()), depth_after(body.drop_last(), depth)) >= floor
    }
}

/// Lines inside a collapsed block add nothing to what is shown, and the
/// block that hides them stays the same.
pub proof fn lemma_hidden_lines_show_nothing(
    body: Seq<Seq<char>>,
    from: DebugRender,
    max_depth: nat,
    p: Palette,
)
    requires
        from.scan.skip is Some,
        stays_inside(body, from.scan.depth, from.scan.skip->0),
    ensures
        debug_fold(body, from, max_depth, p).shown == from.shown,
        debug_fold(body, from, max_depth, p).scan.skip == from.scan.skip,
        debug_fold(body, from, max_depth, p).scan.depth == depth_after(body, from.scan.depth),
    decreases body.len(),
{
    if body.len() > 0 {
        lemma_hidden_lines_show_nothing(body.drop_last(), from, max_depth, p);
    }
}

/// Folding over a first line and then the rest is folding over all of them.
pub proof fn lemma_debug_fold_first(
    head: Seq<char>,
    body: Seq<Seq<char>>,
    from: DebugRender,
    max_depth: nat,
    p: Palette,
)
    ensures
        debug_fold(seq![head] + body, from, max_depth, p) == debug_fold(
            body,
            debug_fold(seq![head], from, max_depth, p),
            max_depth,
            p,
        ),
    decreases body.len(),
{
    let all = seq![head] + body;
    if body.len() == 0 {
        assert(all == seq![head]);
    } else {
        assert(all.drop_last() == seq![head] + body.drop_last());
        assert(all.last() == body.last());
        lemma_debug_fold_first(head, body.drop_last(), from, max_depth, p);
    }
}

/// A block that opens at the depth limit or deeper is shown as one line,
/// however much it holds: the line that opens it becomes the collapsed
/// marker, and the lines inside it, as long as the depth has not come back
/// below the depth of that line, add nothing.
pub proof fn lemma_collapsed_block_is_one_line(
    head: Seq<char>,
    body: Seq<Seq<char>>,
    from: DebugRender,
    max_depth: nat,
    p: Palette,
)
    requires
        !hidden(head, from.scan),
        opens(trim_start(head)),
        depth_at(head, from.scan) >= max_depth,
        stays_inside(body, depth_at(head, from.scan) + 1, depth_at(head, from.scan)),
    ensures
        debug_fold(seq![head] + body, from, max_depth, p).shown == from.shown.push(
            guides(level_of(head), p) + collapsed(trim_start(head), p),
        ),
        debug_fold(seq![head] + body, from, max_depth, p).scan.skip == Some(
            depth_at(head, from.scan),
        ),
{
    let one = seq![head];
    assert(one.drop_last() == Seq::<Seq<char>>::empty());
    assert(one.last() == head);
    let first = debug_fold(one, from, max_depth, p);
    assert(debug_fold(one.drop_last(), from, max_depth, p) == from);
    lemma_debug_fold_first(head, body, from, max_depth, p);
    lemma_hidden_lines_show_nothing(body, first, max_depth, p);
}

/// Whether no block of the lines `ls` reaches the depth limit: every line
/// that opens a block stands at a depth below `max_depth`.
pub open spec fn fits_depth(ls: Seq<Seq<char>>, max_depth: nat) -> bool {
    forall|k: int|
        0 <= k < ls.len() && opens(trim_start(#[trigger] ls[k])) ==> depth_in(
            trim_start(ls[k]),
            depth_after(ls.take(k), 0),
        ) < max_depth
}

/// There are never more blocks open than lines were read.
pub proof fn lemma_depth_is_bounded(ls: Seq<Seq<char>>)
    ensures
        depth_after(ls, 0) <= ls.len(),
    decreases ls.len(),
{
    if ls.len() > 0 {
        lemma_depth_is_bounded(ls.drop_last());
    }
}

/// A depth limit that is no smaller than the number of lines is reached by
/// no block.
pub proof fn lemma_high_limit_fits(ls: Seq<Seq<char>>, max_depth: nat)
    requires
        ls.len() <= max_depth,
    ensures
        fits_depth(ls, max_depth),
{
    assert forall|k: int| 0 <= k < ls.len() && opens(trim_start(#[trigger] ls[k])) implies depth_in(
        trim_start(ls[k]),
        depth_after(ls.take(k), 0),
    ) < max_depth by {
        lemma_depth_is_bounded(ls.take(k));
    }
}

/// Where no block reaches the depth limit, nothing is collapsed: the
/// rendering is what any other limit gives that no block reaches.
pub proof fn lemma_limit_out_of_reach(ls: Seq<Seq<char>>, first: nat, second: nat, p: Palette)
    requires
        fits_depth(ls, first),
        fits_depth(ls, second),
    ensures
        debug_fold(ls, DebugRender::start(), first, p) == debug_fold(
            ls,
            DebugRender::start(),
            second,
            p,
        ),
        debug_fold(ls, DebugRender::start(), first, p).scan == (DebugScan {
            depth: depth_after(ls, 0),
            skip: None,
        }),
    decreases ls.len(),
{
    if ls.len() > 0 {
        let front = ls.drop_last();
        assert forall|k: int| 0 <= k < front.len() implies front.take(k) == ls.take(k) by {}
        assert(fits_depth(front, first)) by {
            assert forall|k: int|
                0 <= k < front.len() && opens(trim_start(#[trigger] front[k])) implies depth_in(
                trim_start(front[k]),
                depth_after(front.take(k), 0),
            ) < first by {
                assert(front[k] == ls[k]);
                assert(front.take(k) == ls.take(k));
            }
        }
        assert(fits_depth(front, second)) by {
            assert forall|k: int|
                0 <= k < front.len() && opens(trim_start(#[trigger] front[k])) implies depth_in(
                trim_start(front[k]),
                depth_after(front.take(k), 0),
            ) < second by {
                assert(front[k] == ls[k]);
                assert(front.take(k) == ls.take(k));
            }
        }
        lemma_limit_out_of_reach(front, first, second, p);
        let last = ls.len() - 1;
        assert(ls.take(last) == front);
        assert(ls[last] == ls.last());
    }
}

/// A scalar in colour shows the scalar without colour.
proof fn lemma_value_shows(s: Seq<char>, p: Palette)
    requires
        no_escape(s),
        p.is_invisible(),
    ensures
        shows(value_colored(s, p), value_colored(s, Palette::plain())),
{
    let none = Seq::<char>::empty();
    lemma_span_back(s, s.len() as int, CharSet::Only(','));
    let t = trim_end_of(s, CharSet::Only(','));
    lemma_no_escape_part(s, 0, t.len() as int);
    assert(t == s.subrange(0, t.len() as int));
    let color = if first_is(t, '"') {
        p.magenta
    } else if is_float_text(t) || (first_is(t, '-') && is_float_text(t.skip(1))) {
        p.yellow
    } else if t == "true"@ || t == "false"@ {
        p.yellow
    } else {
        p.white
    };
    lemma_shows_tint(color, t, p.reset);
    if last_is(s, ',') {
        lemma_shows_tint(p.gray, seq![','], p.reset);
        lemma_shows_concat(color + t + p.reset, t, p.gray + seq![','] + p.reset, seq![',']);
        assert(value_colored(s, Palette::plain()) == t + seq![',']);
    } else {
        lemma_shows_text(none);
        lemma_shows_concat(color + t + p.reset, t, none, none);
        assert(value_colored(s, Palette::plain()) == t + none);
    }
}

/// The guide marks in colour show the guide marks without colour.
proof fn lemma_guides_show(level: nat, p: Palette)
    requires
        p.is_invisible(),
    ensures
        shows(guides(level, p), guides(level, Palette::plain())),
    decreases level,
{
    let q = Palette::plain();
    if level == 0 {
        lemma_shows_text(Seq::empty());
    } else {
        lemma_guides_show((level - 1) as nat, p);
        lemma_shows_tint(p.gray, seq!['│'], p.reset);
        lemma_shows_text(seq![' ']);
        lemma_shows_concat(p.gray + seq!['│'] + p.reset, seq!['│'], seq![' '], seq![' ']);
        assert(guide(q) == seq!['│'] + seq![' ']);
        lemma_shows_concat(
            guides((level - 1) as nat, p),
            guides((level - 1) as nat, q),
            guide(p),
            guide(q),
        );
    }
}

/// A name in green, a space, and a delimiter or a marker in gray show the
/// three of them without colour.
proof fn lemma_named_shows(name: Seq<char>, mark: Seq<char>, p: Palette)
    requires
        no_escape(name),
        no_escape(mark),
        p.is_invisible(),
    ensures
        shows(
            p.green + name + p.reset + seq![' '] + p.gray + mark + p.reset,
            name + seq![' '] + mark,
        ),
{
    lemma_shows_tint(p.green, name, p.reset);
    lemma_shows_text(seq![' ']);
    lemma_shows_tint(p.gray, mark, p.reset);
    lemma_shows_concat(p.green + name + p.reset, name, seq![' '], seq![' ']);
    lemma_shows_concat(
        p.green + name + p.reset + seq![' '],
        name + seq![' '],
        p.gray + mark + p.reset,
        mark,
    );
    assert(p.green + name + p.reset + seq![' '] + (p.gray + mark + p.reset) == p.green + name
        + p.reset + seq![' '] + p.gray + mark + p.reset);
}

/// What one line shows in colour shows what it shows without colour, and
/// the renderer remembers the same.
proof fn lemma_step_shows(line: Seq<char>, scan: DebugScan, max_depth: nat, p: Palette)
    requires
        no_escape(line),
        p.is_invisible(),
    ensures
        debug_step(line, scan, max_depth, p).scan == debug_step(
            line,
            scan,
            max_depth,
            Palette::plain(),
        ).scan,
        debug_step(line, scan, max_depth, p).shown is Some == debug_step(
            line,
            scan,
            max_depth,
            Palette::plain(),
        ).shown is Some,
        debug_step(line, scan, max_depth, p).shown is Some ==> shows(
            debug_step(line, scan, max_depth, p).shown->0,
            debug_step(line, scan, max_depth, Palette::plain()).shown->0,
        ),
{
    let q = Palette::plain();
    let none = Seq::<char>::empty();
    let t = trim_start(line);
    lemma_span(line, 0, CharSet::Space);
    lemma_no_escape_part(line, line.len() - t.len(), line.len() as int);
    assert(t == line.subrange(line.len() - t.len(), line.len() as int));
    let step = debug_step(line, scan, max_depth, p);
    if step.shown is Some {
        let level = level_of(line);
        lemma_guides_show(level, p);
        let depth = depth_at(line, scan);
        let name = block_name(t);
        lemma_span_back(t, t.len() as int, CharSet::Opener);
        lemma_no_escape_part(t, 0, name.len() as int);
        assert(name == t.subrange(0, name.len() as int));
        let (body_p, body_q) = if opens(t) && depth >= max_depth {
            (collapsed(t, p), collapsed(t, q))
        } else if opens(t) {
            (opened(t, p), opened(t, q))
        } else {
            (inner_line(t, p), inner_line(t, q))
        };
        if opens(t) && depth >= max_depth {
            reveal_strlit("{ ... }");
            reveal_strlit("[ ... ]");
            if name.len() > 0 {
                lemma_named_shows(name, "{ ... }"@, p);
                assert(collapsed(t, q) == name + seq![' '] + "{ ... }"@);
            } else {
                lemma_shows_tint(p.gray, "[ ... ]"@, p.reset);
                assert(collapsed(t, q) == "[ ... ]"@);
            }
        } else if opens(t) {
            let mark = seq![t.last()];
            assert(no_escape(mark));
            if name.len() > 0 {
                lemma_named_shows(name, mark, p);
                assert(opened(t, q) == name + seq![' '] + mark);
            } else {
                lemma_shows_tint(p.gray, mark, p.reset);
                assert(opened(t, q) == mark);
            }
        } else {
            lemma_inner_shows(t, p);
        }
        lemma_shows_concat(guides(level, p), guides(level, q), body_p, body_q);
    }
}

/// A line that opens no block, in colour, shows the line without colour.
proof fn lemma_inner_shows(t: Seq<char>, p: Palette)
    requires
        no_escape(t),
        p.is_invisible(),
    ensures
        shows(inner_line(t, p), inner_line(t, Palette::plain())),
{
    let q = Palette::plain();
    let none = Seq::<char>::empty();
    if ends_block(t) {
        lemma_shows_tint(p.gray, t, p.reset);
        assert(inner_line(t, q) == t);
    } else {
        reveal_strlit(": ");
        lemma_find_from(t, ": "@, 0);
        match find(t, ": "@) {
            Some(k) => {
                let field = t.take(k);
                let value = t.skip(k + 2);
                lemma_no_escape_part(t, 0, k);
                lemma_no_escape_part(t, k + 2, t.len() as int);
                assert(field == t.subrange(0, k));
                assert(value == t.subrange(k + 2, t.len() as int));
                lemma_shows_tint(p.cyan, field, p.reset);
                lemma_shows_tint(p.gray, ": "@, none);
                assert(p.gray + ": "@ + none == p.gray + ": "@);
                lemma_value_shows(value, p);
                lemma_shows_concat(p.cyan + field + p.reset, field, p.gray + ": "@, ": "@);
                lemma_shows_concat(
                    p.cyan + field + p.reset + (p.gray + ": "@),
                    field + ": "@,
                    value_colored(value, p),
                    value_colored(value, q),
                );
                assert(inner_line(t, p) == p.cyan + field + p.reset + (p.gray + ": "@)
                    + value_colored(value, p));
                assert(inner_line(t, q) == field + ": "@ + value_colored(value, q));
            },
            None => {
                lemma_value_shows(t, p);
            },
        }
    }
}

/// Line for line, what is shown in colour shows what is shown without
/// colour.
proof fn lemma_fold_shows(ls: Seq<Seq<char>>, max_depth: nat, p: Palette)
    requires
        forall|k: int| 0 <= k < ls.len() ==> no_escape(#[trigger] ls[k]),
        p.is_invisible(),
    ensures
        ({
            let x = debug_fold(ls, DebugRender::start(), max_depth, p);
            let y = debug_fold(ls, DebugRender::start(), max_depth, Palette::plain());
            &&& x.scan == y.scan
            &&& x.shown.len() == y.shown.len()
            &&& forall|k: int| 0 <= k < x.shown.len() ==> shows(#[trigger] x.shown[k], y.shown[k])
        }),
    decreases ls.len(),
{
    if ls.len() > 0 {
        let front = ls.drop_last();
        assert forall|k: int| 0 <= k < front.len() implies no_escape(#[trigger] front[k]) by {
            assert(front[k] == ls[k]);
        }
        lemma_fold_shows(front, max_depth, p);
        let before = debug_fold(front, DebugRender::start(), max_depth, p);
        assert(no_escape(ls[ls.len() - 1]));
        lemma_step_shows(ls.last(), before.scan, max_depth, p);
    }
}

/// The palette decides the colour codes and nothing else. For every text
/// without an escape character, every palette whose codes are invisible and
/// every depth limit: once the colour codes are removed, the rendering in
/// colour is the rendering with the plain palette, with the same guides and
/// the same collapsed blocks.
pub proof fn lemma_debug_colors_show_plain(s: Seq<char>, p: Palette, max_depth: nat)
    requires
        no_escape(s),
        p.is_invisible(),
    ensures
        strip_ansi(debug_colored(s, p, max_depth)) == debug_colored(
            s,
            Palette::plain(),
            max_depth,
        ),
{
    lemma_lines_hold_no_escape(s, 0);
    lemma_fold_shows(lines(s), max_depth, p);
    lemma_join_shows(
        debug_fold(lines(s), DebugRender::start(), max_depth, p).shown,
        debug_fold(lines(s), DebugRender::start(), max_depth, Palette::plain()).shown,
    );
}

/// Appends a scalar in its colour.
fn push_value(out: &mut Vec<char>, s: &[char], paint: &Paint)
    ensures
        final(out)@ == old(out)@ + value_colored(s@, paint@),
{
    let t = strip_end(s, CharSet::Only(','));
    let has_comma = ends_with_char(s, ',');
    if starts_with_char(t, '"') {
        push_all(out, paint.magenta.as_slice());
    } else if is_float(t) || (starts_with_char(t, '-') && is_float(&t[1..t.len()])) {
        push_all(out, paint.yellow.as_slice());
    } else if spells(t, "true") || spells(t, "false") {
        push_all(out, paint.yellow.as_slice());
    } else {
        push_all(out, paint.white.as_slice());
    }
    push_all(out, t);
    push_all(out, paint.reset.as_slice());
    if has_comma {
        push_all(out, paint.gray.as_slice());
        out.push(',');
        push_all(out, paint.reset.as_slice());
    }
    assert(out@ == old(out)@ + value_colored(s@, paint@));
}

/// Appends the marks of `level` levels of nesting.
fn push_guides(out: &mut Vec<char>, level: u128, paint: &Paint)
    ensures
        final(out)@ == old(out)@ + guides(level as nat, paint@),
{
    let mut k: u128 = 0;
    while k < level
        invariant
            k <= level,
            out@ == old(out)@ + guides(k as nat, paint@),
        decreases level - k,
    {
        let ghost before = out@;
        push_all(out, paint.gray.as_slice());
        out.push('│');
        push_all(out, paint.reset.as_slice());
        out.push(' ');
        assert(out@ == before + guide(paint@));
        k += 1;
        assert(out@ == old(out)@ + guides(k as nat, paint@));
    }
}

/// Appends the marker of a collapsed block.
fn push_collapsed(out: &mut Vec<char>, t: &[char], paint: &Paint)
    ensures
        final(out)@ == old(out)@ + collapsed(t@, paint@),
{
    let name = strip_end(t, CharSet::Opener);
    if name.len() > 0 {
        let dots = chars_of("{ ... }");
        push_all(out, paint.green.as_slice());
        push_all(out, name);
        push_all(out, paint.reset.as_slice());
        out.push(' ');
        push_all(out, paint.gray.as_slice());
        push_all(out, dots.as_slice());
        push_all(out, paint.reset.as_slice());
    } else {
        let dots = chars_of("[ ... ]");
        push_all(out, paint.gray.as_slice());
        push_all(out, dots.as_slice());
        push_all(out, paint.reset.as_slice());
    }
    assert(out@ == old(out)@ + collapsed(t@, paint@));
}

/// Appends a line that opens an expanded block.
fn push_opened(out: &mut Vec<char>, t: &[char], paint: &Paint)
    requires
        t@.len() > 0,
    ensures
        final(out)@ == old(out)@ + opened(t@, paint@),
{
    let name = strip_end(t, CharSet::Opener);
    let bracket = t[t.len() - 1];
    if name.len() > 0 {
        push_all(out, paint.green.as_slice());
        push_all(out, name);
        push_all(out, paint.reset.as_slice());
        out.push(' ');
    }
    push_all(out, paint.gray.as_slice());
    out.push(bracket);
    push_all(out, paint.reset.as_slice());
    assert(out@ == old(out)@ + opened(t@, paint@));
}

/// Appends a line that opens no block.
fn push_inner(out: &mut Vec<char>, t: &[char], paint: &Paint)
    ensures
        final(out)@ == old(out)@ + inner_line(t@, paint@),
{
    let brace = chars_of("},");
    let bracket = chars_of("],");
    let paren = chars_of("),");
    let colon = chars_of(": ");
    let closing = starts_with_char(t, '}') || starts_with_char(t, ']') || starts_with_char(t, ')');
    if closing || finishes_with(t, brace.as_slice()) || finishes_with(t, bracket.as_slice())
        || finishes_with(t, paren.as_slice()) {
        push_all(out, paint.gray.as_slice());
        push_all(out, t);
        push_all(out, paint.reset.as_slice());
        assert(out@ == old(out)@ + inner_line(t@, paint@));
    } else {
        match search(t, colon.as_slice()) {
            Some(k) => {
                proof {
                    reveal_strlit(": ");
                }
                push_all(out, paint.cyan.as_slice());
                push_all(out, &t[0..k]);
                push_all(out, paint.reset.as_slice());
                push_all(out, paint.gray.as_slice());
                push_all(out, colon.as_slice());
                let ghost mid = out@;
                let n = t.len();
                push_value(out, &t[k + 2..n], paint);
                assert(out@ == old(out)@ + inner_line(t@, paint@)) by {
                    assert(mid == old(out)@ + (paint@.cyan + t@.take(k as int) + paint@.reset
                        + paint@.gray + ": "@));
                }
            },
            None => {
                push_value(out, t, paint);
            },
        }
    }
}

/// The state of the renderer, as the contracts see it.
pub open spec fn scan_of(depth: usize, skip: Option<usize>) -> DebugScan {
    DebugScan {
        depth: depth as nat,
        skip: match skip {
            Some(floor) => Some(floor as nat),
            None => None,
        },
    }
}

/// Renders the lines of `s` with the codes of `paint`, and returns the
/// lines that are shown.
pub fn paint_debug(s: &[char], paint: &Paint, max_depth: usize) -> (out: Vec<Vec<char>>)
    ensures
        rows(out@) == debug_fold(lines(s@), DebugRender::start(), max_depth as nat, paint@).shown,
{
    let ls = split_lines(s);
    let n = ls.len();
    let mut out: Vec<Vec<char>> = Vec::new();
    let mut depth: usize = 0;
    let mut skip: Option<usize> = None;
    let mut k: usize = 0;
    assert(lines(s@).take(0) == Seq::<Seq<char>>::empty());
    assert(rows(out@) == Seq::<Seq<char>>::empty());
    while k < n
        invariant
            n == ls@.len(),
            views(ls@) == lines(s@),
            k <= n,
            depth <= k,
            (DebugRender { shown: rows(out@), scan: scan_of(depth, skip) }) == debug_fold(
                lines(s@).take(k as int),
                DebugRender::start(),
                max_depth as nat,
                paint@,
            ),
        decreases n - k,
    {
        let line = ls[k];
        let ghost scan = scan_of(depth, skip);
        let ghost before = rows(out@);
        let ghost step = debug_step(line@, scan, max_depth as nat, paint@);
        proof {
            assert(lines(s@).take(k + 1).drop_last() == lines(s@).take(k as int));
            assert(lines(s@).take(k + 1).last() == line@);
        }
        let t = strip_start(line, CharSet::Space);
        let opening = ends_with_char(t, '{') || ends_with_char(t, '[');
        let closing = starts_with_char(t, '}') || starts_with_char(t, ']') || starts_with_char(
            t,
            ')',
        );
        if closing && depth > 0 {
            depth = depth - 1;
        }
        let is_hidden = match skip {
            Some(floor) => depth >= floor,
            None => false,
        };
        if is_hidden {
            if opening {
                depth = depth + 1;
            }
        } else {
            let level = byte_len(leading_space(line)) / 4;
            let mut row: Vec<char> = Vec::new();
            push_guides(&mut row, level, paint);
            if opening && depth >= max_depth {
                push_collapsed(&mut row, t, paint);
                skip = Some(depth);
                depth = depth + 1;
            } else if opening {
                push_opened(&mut row, t, paint);
                skip = None;
                depth = depth + 1;
            } else {
                push_inner(&mut row, t, paint);
                skip = None;
            }
            assert(row@ == step.shown->0);
            out.push(row);
            assert(rows(out@) == before.push(step.shown->0));
        }
        assert(scan_of(depth, skip) == step.scan);
        k += 1;
    }
    assert(lines(s@).take(k as int) == lines(s@));
    out
}

/// Renders structural debug text and collapses what lies too deep. A line
/// that ends with `{` or `[` opens a block, a line that starts with `}`, `]`
/// or `)` closes one. A block that opens at depth `max_depth` or deeper is
/// shown as its name and a marker, and every line after it is left out
/// until the depth has come back below the depth of that line. Indentation is
/// shown as one guide mark per level. The palette gives the colour codes; a
/// plain one gives the same text without codes.
pub fn colorize_debug(s: &str, c: &Colors, max_depth: usize) -> (out: String)
    ensures
        out@ == debug_colored(s@, c@, max_depth as nat),
{
    let paint = Paint::new(c);
    let chars = chars_of(s);
    let painted = paint_debug(chars.as_slice(), &paint, max_depth);
    let joined = join_rows(&painted);
    string_of(joined.as_slice())
}

/// Colours a single scalar of structural debug text.
pub fn colorize_value(s: &str, c: &Colors) -> (out: String)
    ensures
        out@ == value_colored(s@, c@),
{
    let paint = Paint::new(c);
    let chars = chars_of(s);
    let mut out: Vec<char> = Vec::new();
    push_value(&mut out, chars.as_slice(), &paint);
    string_of(out.as_slice())
}

} // verus!
