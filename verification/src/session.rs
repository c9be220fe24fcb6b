//! The state that checkpoints share, and the decisions of a checkpoint
//! session: whether a checkpoint fires, and what a command does.

use crate::ansi::{strip_ansi, strip_codes};
use crate::number::{parse_unsigned, unsigned_of};
use crate::palette::BorderStyle;
use crate::text::{chars_of, spells, string_of, strip, trim};
use vstd::prelude::*;

verus! {

/// What a process remembers from one checkpoint to the next.
pub struct CheckpointState {
    break_counter: usize,
    skip_all: bool,
    last_full_output: Option<String>,
    last_checkpoint_time: Option<u64>,
}

/// The state of the checkpoints, as contracts see it.
pub struct CheckpointView {
    /// How many checkpoints have fired.
    pub break_counter: nat,
    /// Whether every further checkpoint is skipped.
    pub skip_all: bool,
    /// The full rendering of the last checkpoint that showed values.
    pub last_full_output: Option<Seq<char>>,
    /// When the last checkpoint fired, in microseconds of a clock that
    /// never runs back.
    pub last_checkpoint_time: Option<nat>,
}

impl View for CheckpointState {
    type V = CheckpointView;

    closed spec fn view(&self) -> CheckpointView {
        CheckpointView {
            break_counter: self.break_counter as nat,
            skip_all: self.skip_all,
            last_full_output: match self.last_full_output {
                Some(text) => Some(text@),
                None => None,
            },
            last_checkpoint_time: match self.last_checkpoint_time {
                Some(t) => Some(t as nat),
                None => None,
            },
        }
    }
}

impl CheckpointView {
    /// The state of a process that has seen no checkpoint yet.
    pub open spec fn initial() -> CheckpointView {
        CheckpointView {
            break_counter: 0,
            skip_all: false,
            last_full_output: None,
            last_checkpoint_time: None,
        }
    }
}

impl CheckpointState {
    /// The state of a process that has seen no checkpoint yet.
    pub fn new() -> (state: CheckpointState)
        ensures
            state@ == CheckpointView::initial(),
    {
        CheckpointState {
            break_counter: 0,
            skip_all: false,
            last_full_output: None,
            last_checkpoint_time: None,
        }
    }

    /// How many checkpoints have fired.
    pub fn break_counter(&self) -> (n: usize)
        ensures
            n == self@.break_counter,
    {
        self.break_counter
    }

    /// Whether every further checkpoint is skipped.
    pub fn skip_all(&self) -> (b: bool)
        ensures
            b == self@.skip_all,
    {
        self.skip_all
    }

    /// The full rendering of the last checkpoint that showed values.
    pub fn last_full_output(&self) -> (text: Option<String>)
        ensures
            text is Some == self@.last_full_output is Some,
            text matches Some(t) ==> self@.last_full_output == Some(t@),
    {
        match &self.last_full_output {
            Some(text) => Some(text.clone()),
            None => None,
        }
    }

    /// When the last checkpoint fired.
    pub fn last_checkpoint_time(&self) -> (t: Option<u64>)
        ensures
            t is Some == self@.last_checkpoint_time is Some,
            t matches Some(at) ==> self@.last_checkpoint_time == Some(at as nat),
    {
        self.last_checkpoint_time
    }
}

/// Whether the enablement flag allows checkpoints: it does unless it is
/// set to `0`, `false`, `no` or `off`.
pub open spec fn flag_enables(flag: Option<Seq<char>>) -> bool {
    match flag {
        Some(v) => !(v == "0"@ || v == "false"@ || v == "no"@ || v == "off"@),
        None => true,
    }
}

/// What `flag` holds, as contracts see it.
pub open spec fn flag_view(flag: Option<&str>) -> Option<Seq<char>> {
    match flag {
        Some(v) => Some(v@),
        None => None,
    }
}

/// Whether a checkpoint fires: not once all checkpoints are skipped, and
/// not while the enablement flag, given as `flag`, forbids it.
pub fn is_enabled(state: &CheckpointState, flag: Option<&str>) -> (b: bool)
    ensures
        b == (!state@.skip_all && flag_enables(flag_view(flag))),
{
    if state.skip_all {
        return false;
    }
    match flag {
        Some(v) => {
            let chars = chars_of(v);
            let s = chars.as_slice();
            !(spells(s, "0") || spells(s, "false") || spells(s, "no") || spells(s, "off"))
        },
        None => true,
    }
}

/// Whether the session is interactive: both the error output and the input
/// are attached to a terminal.
pub fn is_tty(stderr_is_terminal: bool, stdin_is_terminal: bool) -> (b: bool)
    ensures
        b == (stderr_is_terminal && stdin_is_terminal),
{
    stderr_is_terminal && stdin_is_terminal
}

/// Counts one more checkpoint and returns its ordinal, which starts at one.
pub fn next_break_id(state: &mut CheckpointState) -> (id: usize)
    requires
        old(state)@.break_counter < usize::MAX,
    ensures
        id == old(state)@.break_counter + 1,
        final(state)@ == (CheckpointView { break_counter: id as nat, ..old(state)@ }),
{
    state.break_counter = state.break_counter + 1;
    state.break_counter
}

/// Sets the flag that skips every further checkpoint. The flag is sticky:
/// once set, a later call does not clear it.
pub fn set_skip_all(state: &mut CheckpointState, skip: bool)
    ensures
        final(state)@ == (CheckpointView {
            skip_all: old(state)@.skip_all || skip,
            ..old(state)@
        }),
{
    state.skip_all = state.skip_all || skip;
}

/// Keeps `output` as the full rendering of the last checkpoint, in place of
/// what was kept before.
pub fn store_full_output(state: &mut CheckpointState, output: String)
    ensures
        final(state)@ == (CheckpointView { last_full_output: Some(output@), ..old(state)@ }),
{
    state.last_full_output = Some(output);
}

/// The time since the last checkpoint, in microseconds, at the time `now`;
/// nothing before the first checkpoint. A clock that ran back gives zero.
pub open spec fn elapsed_at(state: CheckpointView, now: nat) -> Option<nat> {
    match state.last_checkpoint_time {
        Some(last) => Some(
            if now >= last {
                (now - last) as nat
            } else {
                0
            },
        ),
        None => None,
    }
}

/// The time since the last checkpoint, at the time `now`.
pub fn get_elapsed(state: &CheckpointState, now: u64) -> (elapsed: Option<u64>)
    ensures
        elapsed is Some == elapsed_at(state@, now as nat) is Some,
        elapsed matches Some(d) ==> elapsed_at(state@, now as nat) == Some(d as nat),
{
    match state.last_checkpoint_time {
        Some(last) => Some(
            if now >= last {
                now - last
            } else {
                0
            },
        ),
        None => None,
    }
}

/// Records that a checkpoint fires at the time `now`.
pub fn update_break_time(state: &mut CheckpointState, now: u64)
    ensures
        final(state)@ == (CheckpointView {
            last_checkpoint_time: Some(now as nat),
            ..old(state)@
        }),
{
    state.last_checkpoint_time = Some(now);
}

/// The depth at which blocks are collapsed when nothing else is asked for.
pub const DEFAULT_MAX_DEPTH: usize = 4;

/// The depth limit that `setting` asks for: the number it writes, or the
/// default where there is no setting or it writes no number.
pub open spec fn depth_setting(setting: Option<Seq<char>>) -> nat {
    match setting {
        Some(v) => match unsigned_of(v) {
            Some(n) => n,
            None => DEFAULT_MAX_DEPTH as nat,
        },
        None => DEFAULT_MAX_DEPTH as nat,
    }
}

/// The depth at which blocks are collapsed, from the setting given.
pub fn max_depth(setting: Option<&str>) -> (depth: usize)
    ensures
        depth == depth_setting(flag_view(setting)),
{
    match setting {
        Some(v) => {
            let chars = chars_of(v);
            match parse_unsigned(chars.as_slice()) {
                Some(n) => n,
                None => DEFAULT_MAX_DEPTH,
            }
        },
        None => DEFAULT_MAX_DEPTH,
    }
}

/// The border that `selector` names: `sharp`, `double` or `ascii`, and the
/// rounded one for `round`, `rounded`, any other name and no name.
pub open spec fn border_for(selector: Option<Seq<char>>) -> BorderStyle {
    match selector {
        Some(v) => if v == "sharp"@ {
            BorderStyle::spec_sharp()
        } else if v == "double"@ {
            BorderStyle::spec_double()
        } else if v == "ascii"@ {
            BorderStyle::spec_ascii()
        } else {
            BorderStyle::spec_rounded()
        },
        None => BorderStyle::spec_rounded(),
    }
}

/// The border style that the selector given asks for.
pub fn get_border_style(selector: Option<&str>) -> (border: BorderStyle)
    ensures
        border == border_for(flag_view(selector)),
{
    match selector {
        Some(v) => {
            let chars = chars_of(v);
            let s = chars.as_slice();
            if spells(s, "sharp") {
                BorderStyle::sharp()
            } else if spells(s, "double") {
                BorderStyle::double()
            } else if spells(s, "ascii") {
                BorderStyle::ascii()
            } else {
                BorderStyle::rounded()
            }
        },
        None => BorderStyle::rounded(),
    }
}

/// What the developer asks for at the prompt.
#[derive(Clone, Copy, Debug, PartialEq, Eq, Structural)]
pub enum Command {
    /// Go on with the program.
    Continue,
    /// End the process.
    Quit,
    /// Skip every further checkpoint.
    Skip,
    /// Show the full rendering.
    More,
    /// Show the call stack.
    Trace,
    /// Copy the full rendering to the clipboard.
    Copy,
    /// Show the list of commands.
    Help,
}

/// `s` in lower case, as `str::to_lowercase` gives it.
pub uninterp spec fn lowercase(s: Seq<char>) -> Seq<char>;

/// `str::to_lowercase`: the text in lower case, by the rules of Unicode.
/// The contract claims that the result depends on the text alone.
#[verifier::external_body]
fn to_lower(s: &str) -> (out: String)
    ensures
        out@ == lowercase(s@),
{
    s.to_lowercase()
}

/// The command that `word` names. `word` is what was typed, trimmed and in
/// lower case. Anything that names no command, the empty word too, goes on
/// with the program.
pub open spec fn command_of(word: Seq<char>) -> Command {
    if word == "q"@ || word == "quit"@ {
        Command::Quit
    } else if word == "s"@ || word == "skip"@ {
        Command::Skip
    } else if word == "m"@ || word == "more"@ {
        Command::More
    } else if word == "t"@ || word == "trace"@ {
        Command::Trace
    } else if word == "c"@ || word == "copy"@ {
        Command::Copy
    } else if word == "h"@ || word == "?"@ || word == "help"@ {
        Command::Help
    } else {
        Command::Continue
    }
}

/// The command that `word` names.
pub fn command_for(word: &str) -> (cmd: Command)
    ensures
        cmd == command_of(word@),
{
    let chars = chars_of(word);
    let w = chars.as_slice();
    if spells(w, "q") || spells(w, "quit") {
        Command::Quit
    } else if spells(w, "s") || spells(w, "skip") {
        Command::Skip
    } else if spells(w, "m") || spells(w, "more") {
        Command::More
    } else if spells(w, "t") || spells(w, "trace") {
        Command::Trace
    } else if spells(w, "c") || spells(w, "copy") {
        Command::Copy
    } else if spells(w, "h") || spells(w, "?") || spells(w, "help") {
        Command::Help
    } else {
        Command::Continue
    }
}

/// The command that the line `line` asks for: the line is trimmed and put
/// in lower case, and the word that results names the command.
pub fn parse_command(line: &str) -> (cmd: Command)
    ensures
        cmd == command_of(lowercase(trim(line@))),
{
    let chars = chars_of(line);
    let word = string_of(strip(chars.as_slice()));
    let lower = to_lower(word.as_str());
    command_for(lower.as_str())
}

/// Where a checkpoint session stands.
#[derive(Clone, Copy, Debug, PartialEq, Eq, Structural)]
pub enum Phase {
    /// No checkpoint is under way.
    Idle,
    /// A checkpoint has fired and its panel is being rendered.
    Rendering,
    /// The panel is shown and the session waits for a command.
    AwaitingCommand,
    /// The process is to end.
    Terminated,
}

/// What is to be done for a command, by whoever runs the session.
#[derive(Debug)]
pub enum Action {
    /// Leave the prompt and go on with the program.
    Resume,
    /// End the process at once.
    Exit,
    /// Show the text given, the full rendering, or say that there is none.
    ShowFull(Option<String>),
    /// Show the call stack.
    ShowTrace,
    /// Copy the text given, the full rendering without colour codes, to the
    /// clipboard, or say that there is nothing to copy.
    CopyText(Option<String>),
    /// Show the list of commands.
    ShowHelp,
}

/// What is to be done for a command, as contracts see it.
pub enum ActionView {
    Resume,
    Exit,
    ShowFull(Option<Seq<char>>),
    ShowTrace,
    CopyText(Option<Seq<char>>),
    ShowHelp,
}

impl View for Action {
    type V = ActionView;

    open spec fn view(&self) -> ActionView {
        match self {
            Action::Resume => ActionView::Resume,
            Action::Exit => ActionView::Exit,
            Action::ShowFull(text) => ActionView::ShowFull(
                match text {
                    Some(t) => Some(t@),
                    None => None,
                },
            ),
            Action::ShowTrace => ActionView::ShowTrace,
            Action::CopyText(text) => ActionView::CopyText(
                match text {
                    Some(t) => Some(t@),
                    None => None,
                },
            ),
            Action::ShowHelp => ActionView::ShowHelp,
        }
    }
}

impl ActionView {
    /// Where the session stands once the action is done: at the end of the
    /// process after `Exit`, idle again after `Resume`, and still at the
    /// prompt after every other action.
    pub open spec fn next_phase(self) -> Phase {
        match self {
            ActionView::Resume => Phase::Idle,
            ActionView::Exit => Phase::Terminated,
            _ => Phase::AwaitingCommand,
        }
    }
}

impl Action {
    /// Where the session stands once the action is done.
    pub fn next_phase(&self) -> (phase: Phase)
        ensures
            phase == self@.next_phase(),
    {
        match self {
            Action::Resume => Phase::Idle,
            Action::Exit => Phase::Terminated,
            _ => Phase::AwaitingCommand,
        }
    }
}

/// The action that a command asks for in a given state.
pub open spec fn action_for(state: CheckpointView, cmd: Command) -> ActionView {
    match cmd {
        Command::Continue => ActionView::Resume,
        Command::Quit => ActionView::Exit,
        Command::Skip => ActionView::Resume,
        Command::More => ActionView::ShowFull(state.last_full_output),
        Command::Trace => ActionView::ShowTrace,
        Command::Copy => ActionView::CopyText(
            match state.last_full_output {
                Some(text) => Some(strip_ansi(text)),
                None => None,
            },
        ),
        Command::Help => ActionView::ShowHelp,
    }
}

/// The state that a command leaves: `Skip` sets the flag that skips every
/// further checkpoint, and no other command changes anything.
pub open spec fn state_after(state: CheckpointView, cmd: Command) -> CheckpointView {
    if cmd == Command::Skip {
        CheckpointView { skip_all: true, ..state }
    } else {
        state
    }
}

/// Carries out what a command means for the state, and tells what is to be
/// done for it.
pub fn apply_command(state: &mut CheckpointState, cmd: Command) -> (action: Action)
    ensures
        action@ == action_for(old(state)@, cmd),
        final(state)@ == state_after(old(state)@, cmd),
{
    match cmd {
        Command::Continue => Action::Resume,
        Command::Quit => Action::Exit,
        Command::Skip => {
            set_skip_all(state, true);
            Action::Resume
        },
        Command::More => Action::ShowFull(state.last_full_output()),
        Command::Trace => Action::ShowTrace,
        Command::Copy => match &state.last_full_output {
            Some(text) => {
                let chars = chars_of(text.as_str());
                let clean = strip_codes(chars.as_slice());
                Action::CopyText(Some(string_of(clean.as_slice())))
            },
            None => Action::CopyText(None),
        },
        Command::Help => Action::ShowHelp,
    }
}

/// Handles one line of input at the prompt: finds the command that the
/// line asks for, carries out what it means for the state, and tells what
/// is to be done for it.
pub fn handle_input(state: &mut CheckpointState, line: &str) -> (action: Action)
    ensures
        action@ == action_for(old(state)@, command_of(lowercase(trim(line@)))),
        final(state)@ == state_after(old(state)@, command_of(lowercase(trim(line@)))),
{
    let cmd = parse_command(line);
    apply_command(state, cmd)
}

/// What a session does once its panel is shown: it waits for a command if
/// it is interactive, and else goes on with the program at once.
pub fn phase_after_panel(interactive: bool) -> (phase: Phase)
    ensures
        phase == if interactive {
            Phase::AwaitingCommand
        } else {
            Phase::Idle
        },
{
    if interactive {
        Phase::AwaitingCommand
    } else {
        Phase::Idle
    }
}

} // verus!
