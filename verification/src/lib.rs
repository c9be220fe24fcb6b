//! Rendering of debug values for an interactive checkpoint: detection of
//! embedded JSON, TOML and YAML, colouring, depth-limited structure,
//! truncation, and the decisions of the checkpoint session.
//!
//! The library computes text and state and performs no input or output: the
//! program around it reads the environment, the clock and the terminal, and
//! writes out the lines that it is given.

pub mod ansi;
pub mod colorize;
pub mod elapsed;
pub mod formats;
pub mod layout;
pub mod lines;
pub mod number;
pub mod palette;
pub mod panel;
pub mod prompt;
pub mod render;
pub mod session;
pub mod text;
pub mod trace;

pub use ansi::strip_ansi_codes;
pub use colorize::json::colorize_json;
pub use colorize::structure::{colorize_debug, colorize_value};
pub use colorize::toml::{colorize_toml, colorize_toml_value};
pub use colorize::yaml::{colorize_yaml, colorize_yaml_value};
pub use elapsed::format_elapsed;
pub use layout::{truncate_output, word_wrap};
pub use palette::{BorderStyle, Colors};
pub use panel::{checkpoint, render_panel, render_request, RenderRequest, RenderedBlock};
pub use prompt::{clipboard_commands, full_output_lines, help_lines, ClipboardCommand, Platform};
pub use render::{
    detect, format_text, format_text_full, format_value, format_value_full, render_display,
    render_full, DetectedFormat,
};
pub use session::{
    apply_command, command_for, get_border_style, get_elapsed, handle_input, is_enabled, is_tty,
    max_depth, next_break_id, parse_command, set_skip_all, store_full_output,
    update_break_time, Action, CheckpointState, Command, Phase,
};
pub use trace::{stack_trace, trace_report, StackSymbol};
