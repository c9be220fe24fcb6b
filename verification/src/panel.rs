//! The panel of a checkpoint: its lines, the full text kept beside it, and
//! the checkpoint itself, from the state before to the state after.

use crate::elapsed::{elapsed_note, format_elapsed};
use crate::lines::{
    byte_len, lemma_utf8_len_bounds, lines, rows, split_lines, utf8_len, views,
};
use crate::number::{decimal, push_decimal};
use crate::palette::{BorderStyle, Colors, Paint, Palette};
use crate::render::{format_text, format_text_full, value_display, value_full};
use crate::session::{
    elapsed_at, flag_enables, flag_view, get_elapsed, is_enabled, next_break_id, state_after,
    store_full_output, update_break_time, CheckpointState, CheckpointView, Command,
};
use crate::text::{
    chars_of, has_char, push_all, push_repeat, repeat, skip_run, string_of, CharSet,
};
use vstd::prelude::*;

verus! {

/// The number of border glyphs in a rule of the panel.
pub const PANEL_WIDTH: usize = 50;

/// The part of the top line that the title takes, beside the ordinal and
/// the note.
pub const TITLE_WIDTH: usize = 14;

/// One named value to show at a checkpoint.
pub struct RenderRequest {
    /// The name of the value, as the caller wrote it.
    pub name: String,
    /// The debug text of the value, on one line.
    pub debug_text: String,
    /// The debug text of the value, with line breaks and indentation.
    pub pretty_text: String,
}

/// A request, as contracts see it.
pub struct RequestView {
    pub name: Seq<char>,
    pub debug_text: Seq<char>,
    pub pretty_text: Seq<char>,
}

impl View for RenderRequest {
    type V = RequestView;

    open spec fn view(&self) -> RequestView {
        RequestView {
            name: self.name@,
            debug_text: self.debug_text@,
            pretty_text: self.pretty_text@,
        }
    }
}

/// One value, rendered: what the panel shows, and the full text.
pub struct RenderedBlock {
    pub name: String,
    pub display: String,
    pub full_text: String,
}

/// A rendered value, as contracts see it.
pub struct BlockView {
    pub name: Seq<char>,
    pub display: Seq<char>,
    pub full_text: Seq<char>,
}

impl View for RenderedBlock {
    type V = BlockView;

    open spec fn view(&self) -> BlockView {
        BlockView { name: self.name@, display: self.display@, full_text: self.full_text@ }
    }
}

/// The rendering of a request.
pub open spec fn block_of(request: RequestView, p: Palette, max_depth: nat) -> BlockView {
    BlockView {
        name: request.name,
        display: value_display(request.debug_text, request.pretty_text, p, max_depth),
        full_text: value_full(request.debug_text, request.pretty_text),
    }
}

/// The renderings of the requests `requests`, in their order.
pub open spec fn blocks_of(requests: Seq<RequestView>, p: Palette, max_depth: nat) -> Seq<
    BlockView,
> {
    Seq::new(requests.len(), |k: int| block_of(requests[k], p, max_depth))
}

/// What each request of `v` is, as contracts see it.
pub open spec fn request_views(v: Seq<RenderRequest>) -> Seq<RequestView> {
    Seq::new(v.len(), |k: int| v[k]@)
}

/// What each block of `v` is, as contracts see it.
pub open spec fn block_views(v: Seq<RenderedBlock>) -> Seq<BlockView> {
    Seq::new(v.len(), |k: int| v[k]@)
}

/// What each string of `v` holds.
pub open spec fn texts(v: Seq<String>) -> Seq<Seq<char>> {
    Seq::new(v.len(), |k: int| v[k]@)
}

/// Renders one request.
pub fn render_request(request: &RenderRequest, c: &Colors, max_depth: usize) -> (block:
    RenderedBlock)
    ensures
        block@ == block_of(request@, c@, max_depth as nat),
{
    RenderedBlock {
        name: request.name.clone(),
        display: format_text(
            request.debug_text.as_str(),
            request.pretty_text.as_str(),
            c,
            max_depth,
        ),
        full_text: format_text_full(request.debug_text.as_str(), request.pretty_text.as_str()),
    }
}

/// Renders the requests in their order.
pub fn render_requests(requests: &Vec<RenderRequest>, c: &Colors, max_depth: usize) -> (blocks:
    Vec<RenderedBlock>)
    ensures
        block_views(blocks@) == blocks_of(request_views(requests@), c@, max_depth as nat),
{
    let mut blocks: Vec<RenderedBlock> = Vec::new();
    let mut k: usize = 0;
    while k < requests.len()
        invariant
            k <= requests@.len(),
            blocks@.len() == k,
            forall|j: int|
                0 <= j < k ==> (#[trigger] blocks@[j])@ == block_of(
                    requests@[j]@,
                    c@,
                    max_depth as nat,
                ),
        decreases requests@.len() - k,
    {
        blocks.push(render_request(&requests[k], c, max_depth));
        k += 1;
    }
    assert(block_views(blocks@) =~= blocks_of(request_views(requests@), c@, max_depth as nat));
    blocks
}

/// The full text of a checkpoint: for every block its name, ` = `, its
/// full text and an empty line.
pub open spec fn full_output(blocks: Seq<BlockView>) -> Seq<char>
    decreases blocks.len(),
{
    if blocks.len() == 0 {
        Seq::empty()
    } else {
        full_output(blocks.drop_last()) + blocks.last().name + " = "@ + blocks.last().full_text
            + seq!['\n', '\n']
    }
}

/// Puts the full texts of the blocks together.
pub fn collect_full_output(blocks: &Vec<RenderedBlock>) -> (out: String)
    ensures
        out@ == full_output(block_views(blocks@)),
{
    let sign = chars_of(" = ");
    let mut out: Vec<char> = Vec::new();
    let mut k: usize = 0;
    assert(block_views(blocks@).take(0) == Seq::<BlockView>::empty());
    while k < blocks.len()
        invariant
            k <= blocks@.len(),
            sign@ == " = "@,
            out@ == full_output(block_views(blocks@).take(k as int)),
        decreases blocks@.len() - k,
    {
        let ghost all = block_views(blocks@);
        proof {
            assert(all.take(k + 1).drop_last() == all.take(k as int));
            assert(all.take(k + 1).last() == blocks@[k as int]@);
        }
        let name = chars_of(blocks[k].name.as_str());
        let full = chars_of(blocks[k].full_text.as_str());
        let ghost before = out@;
        push_all(&mut out, name.as_slice());
        push_all(&mut out, sign.as_slice());
        push_all(&mut out, full.as_slice());
        out.push('\n');
        out.push('\n');
        assert(out@ == before + name@ + " = "@ + full@ + seq!['\n', '\n']);
        k += 1;
    }
    assert(block_views(blocks@).take(k as int) == block_views(blocks@));
    string_of(out.as_slice())
}

/// How many border glyphs fill the top line behind the title: what the
/// ordinal and a third of the note leave of the width, and none if they
/// leave nothing.
pub open spec fn top_fill(id: nat, note: Seq<char>) -> nat {
    let used = TITLE_WIDTH + decimal(id).len() + utf8_len(note) / 3;
    if used <= PANEL_WIDTH {
        (PANEL_WIDTH - used) as nat
    } else {
        0
    }
}

/// The top line of the panel: the corner, the title with the ordinal of the
/// checkpoint, the note on the time, and border glyphs to fill the line.
pub open spec fn top_line(id: nat, note: Seq<char>, border: BorderStyle, p: Palette) -> Seq<
    char,
> {
    p.yellow + seq![border.top_left, border.horizontal] + " BREAK #"@ + decimal(id) + seq![' ']
        + note + repeat(border.horizontal, top_fill(id, note)) + p.reset
}

/// The line that tells where the checkpoint stands in the source.
pub open spec fn location_line(location: Seq<char>, border: BorderStyle, p: Palette) -> Seq<
    char,
> {
    p.yellow + seq![border.vertical] + p.reset + seq![' '] + p.cyan + location + p.reset
}

/// A rule of the panel: a corner and border glyphs.
pub open spec fn rule(corner: char, border: BorderStyle, p: Palette) -> Seq<char> {
    p.yellow + seq![corner] + repeat(border.horizontal, PANEL_WIDTH as nat) + p.reset
}

/// What every line of the body starts with: the border and a space.
pub open spec fn margin(border: BorderStyle, p: Palette) -> Seq<char> {
    p.yellow + seq![border.vertical] + p.reset + seq![' ']
}

/// A line of a value that takes several lines.
pub open spec fn value_line(line: Seq<char>, border: BorderStyle, p: Palette) -> Seq<char> {
    margin(border, p) + p.white + line + p.reset
}

/// The lines of the panel for one block. A rendering on one line is shown
/// as `name = value`. A rendering of several lines is shown as a line
/// `name=` and then its lines, each behind the border.
pub open spec fn block_lines(block: BlockView, border: BorderStyle, p: Palette) -> Seq<
    Seq<char>,
> {
    if has_char(block.display, '\n') {
        seq![margin(border, p) + p.green + block.name + p.reset + seq!['=']] + Seq::new(
            lines(block.display).len(),
            |k: int| value_line(lines(block.display)[k], border, p),
        )
    } else {
        seq![
            margin(border, p) + p.green + block.name + p.reset + " = "@ + p.white
                + block.display + p.reset,
        ]
    }
}

/// The lines of the panel for the blocks `blocks`, in their order.
pub open spec fn body_lines(blocks: Seq<BlockView>, border: BorderStyle, p: Palette) -> Seq<
    Seq<char>,
>
    decreases blocks.len(),
{
    if blocks.len() == 0 {
        Seq::empty()
    } else {
        body_lines(blocks.drop_last(), border, p) + block_lines(blocks.last(), border, p)
    }
}

/// The lines of the panel: an empty line, the top line, the location, and
/// then, if there are values, a rule, the values and the bottom rule, and
/// else the bottom rule alone.
pub open spec fn panel_lines(
    id: nat,
    note: Seq<char>,
    location: Seq<char>,
    blocks: Seq<BlockView>,
    border: BorderStyle,
    p: Palette,
) -> Seq<Seq<char>> {
    let head = seq![
        Seq::<char>::empty(),
        top_line(id, note, border, p),
        location_line(location, border, p),
    ];
    if blocks.len() == 0 {
        head + seq![rule(border.bottom_left, border, p)]
    } else {
        head + seq![rule(border.tee_right, border, p)] + body_lines(blocks, border, p) + seq![
            rule(border.bottom_left, border, p),
        ]
    }
}

/// The top line of the panel.
fn make_top_line(id: usize, note: &[char], border: &BorderStyle, paint: &Paint) -> (out: Vec<
    char,
>)
    ensures
        out@ == top_line(id as nat, note@, *border, paint@),
{
    let title = chars_of(" BREAK #");
    let mut digits: Vec<char> = Vec::new();
    push_decimal(&mut digits, id as u128);
    let used: u128 = TITLE_WIDTH as u128 + digits.len() as u128 + byte_len(note) / 3;
    let fill: u128 = if used <= PANEL_WIDTH as u128 {
        PANEL_WIDTH as u128 - used
    } else {
        0
    };
    proof {
        lemma_utf8_len_bounds(note@);
    }
    let mut out: Vec<char> = Vec::new();
    push_all(&mut out, paint.yellow.as_slice());
    out.push(border.top_left);
    out.push(border.horizontal);
    push_all(&mut out, title.as_slice());
    push_all(&mut out, digits.as_slice());
    out.push(' ');
    push_all(&mut out, note);
    push_repeat(&mut out, border.horizontal, fill);
    push_all(&mut out, paint.reset.as_slice());
    assert(out@ == top_line(id as nat, note@, *border, paint@));
    out
}

/// The line that tells where the checkpoint stands.
fn make_location_line(location: &[char], border: &BorderStyle, paint: &Paint) -> (out: Vec<char>)
    ensures
        out@ == location_line(location@, *border, paint@),
{
    let mut out: Vec<char> = Vec::new();
    push_margin(&mut out, border, paint);
    push_all(&mut out, paint.cyan.as_slice());
    push_all(&mut out, location);
    push_all(&mut out, paint.reset.as_slice());
    assert(out@ == location_line(location@, *border, paint@));
    out
}

/// A rule of the panel.
fn make_rule(corner: char, border: &BorderStyle, paint: &Paint) -> (out: Vec<char>)
    ensures
        out@ == rule(corner, *border, paint@),
{
    let mut out: Vec<char> = Vec::new();
    push_all(&mut out, paint.yellow.as_slice());
    out.push(corner);
    push_repeat(&mut out, border.horizontal, PANEL_WIDTH as u128);
    push_all(&mut out, paint.reset.as_slice());
    assert(out@ == rule(corner, *border, paint@));
    out
}

/// Appends what every line of the body starts with.
fn push_margin(out: &mut Vec<char>, border: &BorderStyle, paint: &Paint)
    ensures
        final(out)@ == old(out)@ + margin(*border, paint@),
{
    push_all(out, paint.yellow.as_slice());
    out.push(border.vertical);
    push_all(out, paint.reset.as_slice());
    out.push(' ');
    assert(out@ == old(out)@ + margin(*border, paint@));
}

/// The first line of a block: the name, and the value if it fits the line.
fn make_name_line(name: &[char], value: Option<&[char]>, border: &BorderStyle, paint: &Paint) -> (out:
    Vec<char>)
    ensures
        out@ == match value {
            Some(v) => margin(*border, paint@) + paint@.green + name@ + paint@.reset + " = "@
                + paint@.white + v@ + paint@.reset,
            None => margin(*border, paint@) + paint@.green + name@ + paint@.reset + seq!['='],
        },
{
    let mut out: Vec<char> = Vec::new();
    push_margin(&mut out, border, paint);
    push_all(&mut out, paint.green.as_slice());
    push_all(&mut out, name);
    push_all(&mut out, paint.reset.as_slice());
    match value {
        Some(v) => {
            let sign = chars_of(" = ");
            push_all(&mut out, sign.as_slice());
            push_all(&mut out, paint.white.as_slice());
            push_all(&mut out, v);
            push_all(&mut out, paint.reset.as_slice());
            assert(out@ == margin(*border, paint@) + paint@.green + name@ + paint@.reset
                + " = "@ + paint@.white + v@ + paint@.reset);
        },
        None => {
            out.push('=');
            assert(out@ == margin(*border, paint@) + paint@.green + name@ + paint@.reset + seq![
                '=',
            ]);
        },
    }
    out
}

/// A line of a value that takes several lines.
fn make_value_line(line: &[char], border: &BorderStyle, paint: &Paint) -> (out: Vec<char>)
    ensures
        out@ == value_line(line@, *border, paint@),
{
    let mut out: Vec<char> = Vec::new();
    push_margin(&mut out, border, paint);
    push_all(&mut out, paint.white.as_slice());
    push_all(&mut out, line);
    push_all(&mut out, paint.reset.as_slice());
    assert(out@ == value_line(line@, *border, paint@));
    out
}

/// Appends the lines of the panel for one block.
fn push_block_lines(
    out: &mut Vec<Vec<char>>,
    name: &[char],
    display: &[char],
    border: &BorderStyle,
    paint: &Paint,
)
    ensures
        rows(final(out)@) == rows(old(out)@) + block_lines(
            BlockView { name: name@, display: display@, full_text: Seq::empty() },
            *border,
            paint@,
        ),
{
    let ghost block = BlockView { name: name@, display: display@, full_text: Seq::empty() };
    let ghost before = rows(out@);
    let n = display.len();
    if skip_run(display, 0, CharSet::Except('\n')) < n {
        let first = make_name_line(name, None, border, paint);
        out.push(first);
        let ls = split_lines(display);
        let m = ls.len();
        let ghost shown = lines(display@);
        let ghost head = before + seq![first@];
        assert(rows(out@) =~= head);
        let mut k: usize = 0;
        while k < m
            invariant
                m == ls@.len(),
                views(ls@) == shown,
                k <= m,
                rows(out@) == head + Seq::new(
                    k as nat,
                    |j: int| value_line(shown[j], *border, paint@),
                ),
            decreases m - k,
        {
            let line = make_value_line(ls[k], border, paint);
            let ghost prev = rows(out@);
            assert(views(ls@)[k as int] == ls@[k as int]@);
            out.push(line);
            assert(rows(out@) =~= prev.push(value_line(shown[k as int], *border, paint@)));
            k += 1;
            assert(rows(out@) =~= head + Seq::new(
                k as nat,
                |j: int| value_line(shown[j], *border, paint@),
            ));
        }
        assert(rows(out@) =~= before + block_lines(block, *border, paint@));
    } else {
        let only = make_name_line(name, Some(display), border, paint);
        out.push(only);
        assert(rows(out@) =~= before + block_lines(block, *border, paint@));
    }
}

/// The lines of the panel, as vectors of characters.
fn make_panel(
    id: usize,
    note: &[char],
    location: &[char],
    blocks: &Vec<RenderedBlock>,
    border: &BorderStyle,
    paint: &Paint,
) -> (out: Vec<Vec<char>>)
    ensures
        rows(out@) == panel_lines(
            id as nat,
            note@,
            location@,
            block_views(blocks@),
            *border,
            paint@,
        ),
{
    let ghost all = block_views(blocks@);
    let mut out: Vec<Vec<char>> = Vec::new();
    out.push(Vec::new());
    out.push(make_top_line(id, note, border, paint));
    out.push(make_location_line(location, border, paint));
    let ghost head = seq![
        Seq::<char>::empty(),
        top_line(id as nat, note@, *border, paint@),
        location_line(location@, *border, paint@),
    ];
    assert(rows(out@) =~= head);
    let n = blocks.len();
    if n == 0 {
        out.push(make_rule(border.bottom_left, border, paint));
        assert(rows(out@) =~= head + seq![rule(border.bottom_left, *border, paint@)]);
        return out;
    }
    out.push(make_rule(border.tee_right, border, paint));
    let ghost top = head + seq![rule(border.tee_right, *border, paint@)];
    assert(rows(out@) =~= top);
    let mut k: usize = 0;
    assert(all.take(0) == Seq::<BlockView>::empty());
    while k < n
        invariant
            n == blocks@.len(),
            all == block_views(blocks@),
            k <= n,
            rows(out@) == top + body_lines(all.take(k as int), *border, paint@),
        decreases n - k,
    {
        let name = chars_of(blocks[k].name.as_str());
        let display = chars_of(blocks[k].display.as_str());
        proof {
            assert(all.take(k + 1).drop_last() == all.take(k as int));
            assert(all.take(k + 1).last() == blocks@[k as int]@);
            let b = blocks@[k as int]@;
            let bare = BlockView { name: b.name, display: b.display, full_text: Seq::empty() };
            assert(block_lines(b, *border, paint@) == block_lines(bare, *border, paint@));
        }
        push_block_lines(&mut out, name.as_slice(), display.as_slice(), border, paint);
        k += 1;
    }
    assert(all.take(k as int) == all);
    let ghost mid = rows(out@);
    out.push(make_rule(border.bottom_left, border, paint));
    assert(rows(out@) =~= mid + seq![rule(border.bottom_left, *border, paint@)]);
    out
}

/// The lines of a panel, ready to be written out one by one.
pub fn render_panel(
    id: usize,
    note: &str,
    location: &str,
    blocks: &Vec<RenderedBlock>,
    border: &BorderStyle,
    c: &Colors,
) -> (out: Vec<String>)
    ensures
        texts(out@) == panel_lines(
            id as nat,
            note@,
            location@,
            block_views(blocks@),
            *border,
            c@,
        ),
{
    let paint = Paint::new(c);
    let note_chars = chars_of(note);
    let location_chars = chars_of(location);
    let panel = make_panel(
        id,
        note_chars.as_slice(),
        location_chars.as_slice(),
        blocks,
        border,
        &paint,
    );
    strings_of(&panel)
}

/// The lines `v` as strings.
pub fn strings_of(v: &Vec<Vec<char>>) -> (out: Vec<String>)
    ensures
        texts(out@) == rows(v@),
{
    let mut out: Vec<String> = Vec::new();
    let mut k: usize = 0;
    while k < v.len()
        invariant
            k <= v@.len(),
            out@.len() == k,
            forall|j: int| 0 <= j < k ==> (#[trigger] out@[j])@ == v@[j]@,
        decreases v@.len() - k,
    {
        out.push(string_of(v[k].as_slice()));
        k += 1;
    }
    assert(texts(out@) =~= rows(v@));
    out
}

/// Whether a checkpoint fires in the state `state` with the enablement
/// flag `flag`.
pub open spec fn fires(state: CheckpointView, flag: Option<Seq<char>>) -> bool {
    !state.skip_all && flag_enables(flag)
}

/// The note on the time since the last checkpoint, at the time `now`: none
/// at the first checkpoint.
pub open spec fn note_at(state: CheckpointView, now: nat, p: Palette) -> Seq<char> {
    match elapsed_at(state, now) {
        Some(d) => elapsed_note(d, p),
        None => Seq::empty(),
    }
}

/// The state after a checkpoint that fires at the time `now` and renders
/// `blocks`: one checkpoint more is counted, the time is recorded, and the
/// full text of the blocks is kept if there are any.
pub open spec fn state_after_checkpoint(
    state: CheckpointView,
    now: nat,
    blocks: Seq<BlockView>,
) -> CheckpointView {
    CheckpointView {
        break_counter: state.break_counter + 1,
        skip_all: state.skip_all,
        last_full_output: if blocks.len() > 0 {
            Some(full_output(blocks))
        } else {
            state.last_full_output
        },
        last_checkpoint_time: Some(now),
    }
}

/// The state after a call of the checkpoint: as it was, where the
/// checkpoint does not fire.
pub open spec fn state_after_call(
    state: CheckpointView,
    flag: Option<Seq<char>>,
    now: nat,
    blocks: Seq<BlockView>,
) -> CheckpointView {
    if fires(state, flag) {
        state_after_checkpoint(state, now, blocks)
    } else {
        state
    }
}

/// One checkpoint. If checkpoints are skipped or disabled, nothing happens:
/// there is no panel, and the state stays as it is. Otherwise the checkpoint
/// is counted, the time since the last one is noted, every request is
/// rendered in its order, the full text is kept, and the lines of the panel
/// are returned.
pub fn checkpoint(
    state: &mut CheckpointState,
    flag: Option<&str>,
    now: u64,
    location: &str,
    requests: &Vec<RenderRequest>,
    border: &BorderStyle,
    c: &Colors,
    max_depth: usize,
) -> (panel: Option<Vec<String>>)
    requires
        old(state)@.break_counter < usize::MAX,
    ensures
        panel is Some == fires(old(state)@, flag_view(flag)),
        final(state)@ == state_after_call(
            old(state)@,
            flag_view(flag),
            now as nat,
            blocks_of(request_views(requests@), c@, max_depth as nat),
        ),
        panel matches Some(lines) ==> texts(lines@) == panel_lines(
            old(state)@.break_counter + 1,
            note_at(old(state)@, now as nat, c@),
            location@,
            blocks_of(request_views(requests@), c@, max_depth as nat),
            *border,
            c@,
        ),
{
    if !is_enabled(state, flag) {
        return None;
    }
    let id = next_break_id(state);
    let note = match get_elapsed(state, now) {
        Some(d) => format_elapsed(d, c),
        None => String::new(),
    };
    update_break_time(state, now);
    let blocks = render_requests(requests, c, max_depth);
    if blocks.len() > 0 {
        store_full_output(state, collect_full_output(&blocks));
    }
    Some(render_panel(id, note.as_str(), location, &blocks, border, c))
}

/// Skipping is final. Once the command to skip was given, no checkpoint
/// fires: whatever the flag, the time and the values of the calls that
/// follow, each of them leaves the state exactly as the command left it.
pub proof fn lemma_skip_is_final(
    state: CheckpointView,
    first_flag: Option<Seq<char>>,
    first_now: nat,
    first_blocks: Seq<BlockView>,
    second_flag: Option<Seq<char>>,
    second_now: nat,
    second_blocks: Seq<BlockView>,
)
    ensures
        ({
            let skipped = state_after(state, Command::Skip);
            let once = state_after_call(skipped, first_flag, first_now, first_blocks);
            let twice = state_after_call(once, second_flag, second_now, second_blocks);
            &&& !fires(skipped, first_flag)
            &&& once == skipped
            &&& !fires(once, second_flag)
            &&& twice == skipped
        }),
{
}

/// The flag that skips checkpoints is never cleared, and checkpoints are
/// never counted down: a command leaves the count as it is, a checkpoint
/// that fires counts one more, and one that does not fire counts nothing.
pub proof fn lemma_state_is_monotone(
    state: CheckpointView,
    cmd: Command,
    flag: Option<Seq<char>>,
    now: nat,
    blocks: Seq<BlockView>,
)
    ensures
        state.skip_all ==> state_after(state, cmd).skip_all,
        state_after(state, cmd).break_counter == state.break_counter,
        state_after_call(state, flag, now, blocks).skip_all == state.skip_all,
        state_after_call(state, flag, now, blocks).break_counter == if fires(state, flag) {
            state.break_counter + 1
        } else {
            state.break_counter
        },
{
}

/// While the enablement flag is set to `0`, a call of the checkpoint shows
/// no panel and leaves the state as it is: nothing is counted.
pub proof fn lemma_flag_zero_disables(state: CheckpointView, now: nat, blocks: Seq<BlockView>)
    ensures
        !fires(state, Some("0"@)),
        state_after_call(state, Some("0"@), now, blocks) == state,
{
}

} // verus!
