use print_break::{
    apply_command, checkpoint, clipboard_commands, Platform, command_for, get_border_style, get_elapsed, handle_input,
    is_enabled, is_tty, max_depth, next_break_id, parse_command, render_panel, render_request,
    set_skip_all, stack_trace, store_full_output, trace_report, update_break_time, Action,
    BorderStyle, CheckpointState, Colors, Command, Phase, RenderRequest, StackSymbol,
};

fn request<T: std::fmt::Debug>(name: &str, value: &T) -> RenderRequest {
    RenderRequest {
        name: name.to_string(),
        debug_text: format!("{:?}", value),
        pretty_text: format!("{:#?}", value),
    }
}

#[test]
fn env_var_disable() {
    let state = CheckpointState::new();
    assert!(!is_enabled(&state, Some("0")));
    assert!(is_enabled(&state, Some("1")));
    assert!(is_enabled(&state, None));
}

#[test]
fn the_flag_disables_with_four_words_only() {
    let state = CheckpointState::new();
    for off in ["0", "false", "no", "off"] {
        assert!(!is_enabled(&state, Some(off)));
    }
    for on in ["1", "true", "yes", "on", "", "OFF", "False", " 0", "00"] {
        assert!(is_enabled(&state, Some(on)));
    }
}

#[test]
fn a_new_state_has_seen_nothing() {
    let state = CheckpointState::new();
    assert_eq!(state.break_counter(), 0);
    assert!(!state.skip_all());
    assert_eq!(state.last_full_output(), None);
    assert_eq!(state.last_checkpoint_time(), None);
}

#[test]
fn the_counter_starts_at_one_and_goes_up() {
    let mut state = CheckpointState::new();
    assert_eq!(next_break_id(&mut state), 1);
    assert_eq!(next_break_id(&mut state), 2);
    assert_eq!(next_break_id(&mut state), 3);
    assert_eq!(state.break_counter(), 3);
}

#[test]
fn the_skip_flag_is_sticky() {
    let mut state = CheckpointState::new();
    set_skip_all(&mut state, false);
    assert!(!state.skip_all());
    set_skip_all(&mut state, true);
    assert!(state.skip_all());
    set_skip_all(&mut state, false);
    assert!(state.skip_all());
    assert!(!is_enabled(&state, None));
    assert!(!is_enabled(&state, Some("1")));
}

#[test]
fn the_full_output_is_replaced() {
    let mut state = CheckpointState::new();
    store_full_output(&mut state, "first".to_string());
    assert_eq!(state.last_full_output(), Some("first".to_string()));
    store_full_output(&mut state, "second".to_string());
    assert_eq!(state.last_full_output(), Some("second".to_string()));
}

#[test]
fn elapsed_time_is_measured_from_the_last_checkpoint() {
    let mut state = CheckpointState::new();
    assert_eq!(get_elapsed(&state, 500), None);
    update_break_time(&mut state, 1_000);
    assert_eq!(state.last_checkpoint_time(), Some(1_000));
    assert_eq!(get_elapsed(&state, 1_000), Some(0));
    assert_eq!(get_elapsed(&state, 3_500), Some(2_500));
    assert_eq!(get_elapsed(&state, 900), Some(0));
    update_break_time(&mut state, 3_500);
    assert_eq!(get_elapsed(&state, 3_600), Some(100));
}

#[test]
fn both_streams_must_be_terminals() {
    assert!(is_tty(true, true));
    assert!(!is_tty(true, false));
    assert!(!is_tty(false, true));
    assert!(!is_tty(false, false));
}

#[test]
fn the_depth_limit_defaults_to_four() {
    assert_eq!(max_depth(None), 4);
    assert_eq!(max_depth(Some("7")), 7);
    assert_eq!(max_depth(Some("0")), 0);
    assert_eq!(max_depth(Some("+2")), 2);
    assert_eq!(max_depth(Some("")), 4);
    assert_eq!(max_depth(Some("deep")), 4);
    assert_eq!(max_depth(Some("-1")), 4);
    assert_eq!(max_depth(Some(" 3")), 4);
    assert_eq!(max_depth(Some("99999999999999999999999999")), 4);
}

#[test]
fn border_styles_by_name() {
    assert_eq!(get_border_style(None), BorderStyle::rounded());
    assert_eq!(get_border_style(Some("round")), BorderStyle::rounded());
    assert_eq!(get_border_style(Some("rounded")), BorderStyle::rounded());
    assert_eq!(get_border_style(Some("sharp")), BorderStyle::sharp());
    assert_eq!(get_border_style(Some("double")), BorderStyle::double());
    assert_eq!(get_border_style(Some("ascii")), BorderStyle::ascii());
    assert_eq!(get_border_style(Some("fancy")), BorderStyle::rounded());
    assert_eq!(get_border_style(Some("ASCII")), BorderStyle::rounded());
    let r = BorderStyle::rounded();
    assert_eq!(
        (r.top_left, r.top_right, r.bottom_left, r.bottom_right, r.horizontal, r.vertical, r.tee_right),
        ('╭', '╮', '╰', '╯', '─', '│', '├')
    );
    let s = BorderStyle::sharp();
    assert_eq!(
        (s.top_left, s.top_right, s.bottom_left, s.bottom_right, s.horizontal, s.vertical, s.tee_right),
        ('┌', '┐', '└', '┘', '─', '│', '├')
    );
    let d = BorderStyle::double();
    assert_eq!(
        (d.top_left, d.top_right, d.bottom_left, d.bottom_right, d.horizontal, d.vertical, d.tee_right),
        ('╔', '╗', '╚', '╝', '═', '║', '╠')
    );
    let a = BorderStyle::ascii();
    assert_eq!(
        (a.top_left, a.top_right, a.bottom_left, a.bottom_right, a.horizontal, a.vertical, a.tee_right),
        ('+', '+', '+', '+', '-', '|', '+')
    );
}

#[test]
fn commands_by_word() {
    let table = [
        ("q", Command::Quit),
        ("quit", Command::Quit),
        ("s", Command::Skip),
        ("skip", Command::Skip),
        ("m", Command::More),
        ("more", Command::More),
        ("t", Command::Trace),
        ("trace", Command::Trace),
        ("c", Command::Copy),
        ("copy", Command::Copy),
        ("h", Command::Help),
        ("?", Command::Help),
        ("help", Command::Help),
        ("", Command::Continue),
        ("x", Command::Continue),
        ("quit now", Command::Continue),
        ("Q", Command::Continue),
    ];
    for (word, cmd) in table {
        assert_eq!(command_for(word), cmd, "{:?}", word);
    }
}

#[test]
fn lines_are_trimmed_and_put_in_lower_case() {
    assert_eq!(parse_command("Q\n"), Command::Quit);
    assert_eq!(parse_command("  SKIP \r\n"), Command::Skip);
    assert_eq!(parse_command("More"), Command::More);
    assert_eq!(parse_command("\n"), Command::Continue);
    assert_eq!(parse_command(""), Command::Continue);
    assert_eq!(parse_command("s\u{212a}ip"), Command::Skip);
    assert_eq!(parse_command("q q"), Command::Continue);
    assert_eq!(parse_command("?"), Command::Help);
}

#[test]
fn what_each_command_does() {
    let mut state = CheckpointState::new();
    assert!(matches!(apply_command(&mut state, Command::Continue), Action::Resume));
    assert!(matches!(apply_command(&mut state, Command::Quit), Action::Exit));
    assert!(matches!(apply_command(&mut state, Command::Trace), Action::ShowTrace));
    assert!(matches!(apply_command(&mut state, Command::Help), Action::ShowHelp));
    assert!(matches!(apply_command(&mut state, Command::More), Action::ShowFull(None)));
    assert!(matches!(apply_command(&mut state, Command::Copy), Action::CopyText(None)));
    assert!(!state.skip_all());
    store_full_output(&mut state, "x = \x1b[36m1\x1b[0m\n\n".to_string());
    match apply_command(&mut state, Command::More) {
        Action::ShowFull(Some(text)) => assert_eq!(text, "x = \x1b[36m1\x1b[0m\n\n"),
        other => panic!("{:?}", other),
    }
    match apply_command(&mut state, Command::Copy) {
        Action::CopyText(Some(text)) => assert_eq!(text, "x = 1\n\n"),
        other => panic!("{:?}", other),
    }
    assert_eq!(state.last_full_output(), Some("x = \x1b[36m1\x1b[0m\n\n".to_string()));
    assert!(matches!(apply_command(&mut state, Command::Skip), Action::Resume));
    assert!(state.skip_all());
    assert_eq!(state.break_counter(), 0);
}

#[test]
fn where_the_session_stands_after_an_action() {
    assert_eq!(Action::Resume.next_phase(), Phase::Idle);
    assert_eq!(Action::Exit.next_phase(), Phase::Terminated);
    assert_eq!(Action::ShowHelp.next_phase(), Phase::AwaitingCommand);
    assert_eq!(Action::ShowTrace.next_phase(), Phase::AwaitingCommand);
    assert_eq!(Action::ShowFull(None).next_phase(), Phase::AwaitingCommand);
    assert_eq!(Action::CopyText(None).next_phase(), Phase::AwaitingCommand);
    assert_eq!(print_break::session::phase_after_panel(true), Phase::AwaitingCommand);
    assert_eq!(print_break::session::phase_after_panel(false), Phase::Idle);
}

#[test]
fn after_skip_no_checkpoint_fires() {
    let c = Colors::get(false);
    let border = BorderStyle::rounded();
    let mut state = CheckpointState::new();
    let requests = vec![request("x", &1)];
    assert!(checkpoint(&mut state, None, 10, "a.rs:1", &requests, &border, &c, 4).is_some());
    assert!(matches!(handle_input(&mut state, "s\n"), Action::Resume));
    let counter = state.break_counter();
    let time = state.last_checkpoint_time();
    let full = state.last_full_output();
    assert_eq!(counter, 1);
    let first = checkpoint(&mut state, None, 20, "a.rs:2", &requests, &border, &c, 4);
    let second = checkpoint(&mut state, Some("1"), 30, "a.rs:3", &requests, &border, &c, 4);
    assert_eq!(first, None);
    assert_eq!(second, None);
    assert_eq!(state.break_counter(), counter);
    assert_eq!(state.last_checkpoint_time(), time);
    assert_eq!(state.last_full_output(), full);
    assert!(state.skip_all());
}

#[test]
fn a_disabled_checkpoint_does_nothing() {
    let c = Colors::get(false);
    let border = BorderStyle::rounded();
    let mut state = CheckpointState::new();
    let requests = vec![request("x", &1)];
    for _ in 0..3 {
        assert_eq!(checkpoint(&mut state, Some("0"), 10, "a.rs:1", &requests, &border, &c, 4), None);
    }
    assert_eq!(state.break_counter(), 0);
    assert_eq!(state.last_checkpoint_time(), None);
    assert_eq!(state.last_full_output(), None);
    assert!(!state.skip_all());
    assert!(checkpoint(&mut state, Some("1"), 10, "a.rs:1", &requests, &border, &c, 4).is_some());
    assert_eq!(state.break_counter(), 1);
}

#[test]
fn panel_without_values() {
    let c = Colors::get(false);
    let border = BorderStyle::ascii();
    let mut state = CheckpointState::new();
    let panel = checkpoint(&mut state, None, 5, "src/main.rs:42", &Vec::new(), &border, &c, 4).unwrap();
    assert_eq!(
        panel,
        vec![
            "".to_string(),
            format!("+- BREAK #1 {}", "-".repeat(35)),
            "| src/main.rs:42".to_string(),
            format!("+{}", "-".repeat(50)),
        ]
    );
    assert_eq!(state.last_full_output(), None);
    assert_eq!(state.last_checkpoint_time(), Some(5));
}

#[test]
fn panel_with_values_and_elapsed_time() {
    let c = Colors::get(false);
    let border = BorderStyle::rounded();
    let mut state = CheckpointState::new();
    checkpoint(&mut state, None, 1_000, "a.rs:1", &Vec::new(), &border, &c, 4).unwrap();
    let requests = vec![request("user_id", &42), request("items", &vec![1, 2])];
    let panel = checkpoint(&mut state, None, 3_500, "a.rs:9", &requests, &border, &c, 4).unwrap();
    assert_eq!(
        panel,
        vec![
            "".to_string(),
            format!("╭─ BREAK #2  +2.5ms{}", "─".repeat(50 - 14 - 1 - 2)),
            "│ a.rs:9".to_string(),
            format!("├{}", "─".repeat(50)),
            "│ user_id = 42".to_string(),
            "│ items=".to_string(),
            "│ [".to_string(),
            "│ │ 1,".to_string(),
            "│ │ 2,".to_string(),
            "│ ]".to_string(),
            format!("╰{}", "─".repeat(50)),
        ]
    );
    assert_eq!(
        state.last_full_output(),
        Some("user_id = 42\n\nitems = [\n│ 1,\n│ 2,\n]\n\n".to_string())
    );
    assert_eq!(state.break_counter(), 2);
    assert_eq!(state.last_checkpoint_time(), Some(3_500));
}

#[test]
fn panel_in_colour() {
    let c = Colors::get(true);
    let border = BorderStyle::sharp();
    let blocks = vec![render_request(&request("n", &7), &c, 4)];
    let panel = render_panel(3, " \x1b[90m+12µs\x1b[0m", "m.rs:5", &blocks, &border, &c);
    let y = "\x1b[1;33m";
    let r = "\x1b[0m";
    assert_eq!(panel.len(), 6);
    assert_eq!(panel[0], "");
    assert_eq!(
        panel[1],
        format!("{}┌─ BREAK #3  \x1b[90m+12µs\x1b[0m{}{}", y, "─".repeat(50 - 14 - 1 - 5), r)
    );
    assert_eq!(panel[2], format!("{}│{} \x1b[36mm.rs:5{}", y, r, r));
    assert_eq!(panel[3], format!("{}├{}{}", y, "─".repeat(50), r));
    assert_eq!(
        panel[4],
        format!("{}│{} \x1b[1;32mn{} = \x1b[37m\x1b[1;33m7\x1b[0m{}", y, r, r, r)
    );
    assert_eq!(panel[5], format!("{}└{}{}", y, "─".repeat(50), r));
}

#[test]
fn the_top_line_never_runs_short() {
    let c = Colors::get(false);
    let border = BorderStyle::ascii();
    let note = "x".repeat(200);
    let panel = render_panel(12345, &note, "f:1", &Vec::new(), &border, &c);
    assert_eq!(panel[1], format!("+- BREAK #12345 {}", note));
}

fn symbol(name: Option<&str>, file: Option<&str>, line: Option<u32>) -> StackSymbol {
    StackSymbol {
        name: name.map(|n| n.to_string()),
        file: file.map(|f| f.to_string()),
        line,
    }
}

#[test]
fn the_trace_shows_the_frames_of_the_program() {
    let c = Colors::get(false);
    let symbols = vec![
        symbol(Some("backtrace::capture::Backtrace::new"), None, None),
        symbol(Some("print_break::trace::stack_trace"), Some("/x/trace.rs"), Some(3)),
        symbol(Some("print_break_app::handle_input"), None, None),
        symbol(None, Some("/x/y.rs"), Some(1)),
        symbol(Some("demo::run"), Some("/home/u/demo/src/run.rs"), Some(17)),
        symbol(Some("core::ops::function::FnOnce::call_once"), Some("/rust/f.rs"), Some(250)),
        symbol(Some("demo::main"), Some("main.rs"), None),
        symbol(Some("std::rt::lang_start"), None, None),
        symbol(Some("__rust_begin_short_backtrace"), None, None),
        symbol(Some("print_break_late"), Some("a/b"), Some(2)),
        symbol(Some("main"), Some(""), Some(9)),
    ];
    let lines = trace_report(&symbols, &c);
    assert_eq!(
        lines,
        vec![
            "",
            "─── Stack Trace ───",
            "  0. demo::run",
            "      at run.rs:17",
            "  1. demo::main",
            "  2. print_break_late",
            "      at b:2",
            "  3. main",
            "───────────────────",
            "",
        ]
    );
}

#[test]
fn the_trace_is_cut_after_fifteen_frames() {
    let c = Colors::get(true);
    let symbols: Vec<StackSymbol> =
        (0..40).map(|k| symbol(Some(&format!("f{}", k)), Some("/s/m.rs"), Some(k + 1))).collect();
    let lines = trace_report(&symbols, &c);
    assert_eq!(lines.len(), 2 + 30 + 1 + 2);
    assert_eq!(lines[1], "\x1b[1;33m─── Stack Trace ───\x1b[0m");
    assert_eq!(lines[2], "\x1b[90m  0.\x1b[0m \x1b[36mf0\x1b[0m");
    assert_eq!(lines[3], "      \x1b[90mat m.rs:1\x1b[0m");
    assert_eq!(lines[22], "\x1b[90m 10.\x1b[0m \x1b[36mf10\x1b[0m");
    assert_eq!(lines[30], "\x1b[90m 14.\x1b[0m \x1b[36mf14\x1b[0m");
    assert_eq!(lines[32], "\x1b[90m     ... (truncated)\x1b[0m");
    assert_eq!(lines[33], "\x1b[1;33m───────────────────\x1b[0m");
    assert_eq!(lines[34], "");
}

#[test]
fn frames_before_the_program_are_passed_over() {
    let c = Colors::get(false);
    let symbols = vec![
        symbol(Some("print_break_app::prompt"), None, None),
        symbol(Some("std::io::read"), None, None),
    ];
    let lines = trace_report(&symbols, &c);
    assert_eq!(lines, vec!["", "─── Stack Trace ───", "───────────────────", ""]);
    assert_eq!(trace_report(&Vec::new(), &c), lines);
}

#[test]
fn the_stack_of_the_caller_is_framed() {
    let lines = stack_trace(&Colors::get(false));
    assert!(lines.len() >= 4);
    assert_eq!(lines[0], "");
    assert_eq!(lines[1], "─── Stack Trace ───");
    assert_eq!(lines[lines.len() - 2], "───────────────────");
    assert_eq!(lines[lines.len() - 1], "");
    assert!(lines.iter().all(|l| !l.contains("print_break::")));
}

#[test]
fn the_list_of_commands() {
    let lines = print_break::help_lines(&Colors::get(true));
    assert_eq!(
        lines,
        vec![
            "",
            "\x1b[1;33m─── print-break Help ───\x1b[0m",
            "\x1b[36mEnter\x1b[0m     Continue to next breakpoint",
            "\x1b[36mm\x1b[0m         Show full output (if truncated)",
            "\x1b[36mt\x1b[0m         Show stack trace",
            "\x1b[36mc\x1b[0m         Copy last value to clipboard",
            "\x1b[36ms\x1b[0m         Skip all remaining breakpoints",
            "\x1b[36mq\x1b[0m         Quit the program",
            "\x1b[36mh / ?\x1b[0m     Show this help",
            "",
            "\x1b[90mEnvironment variables:\x1b[0m",
            "  \x1b[36mPRINT_BREAK=0\x1b[0m          Disable all breakpoints",
            "  \x1b[36mPRINT_BREAK_DEPTH=N\x1b[0m    Max nesting depth (default: 4)",
            "  \x1b[36mPRINT_BREAK_STYLE=X\x1b[0m    Border style: rounded, sharp, double, ascii",
            "\x1b[1;33m─────────────────────────\x1b[0m",
            "",
        ]
    );
}

#[test]
fn the_full_rendering_line_by_line() {
    let lines = print_break::full_output_lines("x = 1\n\ny = [\n    2,\n]\n\n", &Colors::get(true));
    assert_eq!(
        lines,
        vec![
            "",
            "\x1b[1;33m─── Full Output ───\x1b[0m",
            "\x1b[37mx = 1\x1b[0m",
            "\x1b[37m\x1b[0m",
            "\x1b[37my = [\x1b[0m",
            "\x1b[37m    2,\x1b[0m",
            "\x1b[37m]\x1b[0m",
            "\x1b[37m\x1b[0m",
            "\x1b[1;33m───────────────────\x1b[0m",
            "",
        ]
    );
}

#[test]
fn the_programs_for_the_clipboard() {
    let mac = clipboard_commands(Platform::MacOs);
    assert_eq!(mac.len(), 1);
    assert_eq!((mac[0].program, mac[0].args.len()), ("pbcopy", 0));
    let win = clipboard_commands(Platform::Windows);
    assert_eq!(win.len(), 1);
    assert_eq!((win[0].program, win[0].args.len()), ("clip", 0));
    let other = clipboard_commands(Platform::Other);
    assert_eq!(other.len(), 3);
    assert_eq!(other[0].program, "xclip");
    assert_eq!(other[0].args, vec!["-selection", "clipboard"]);
    assert_eq!(other[1].program, "xsel");
    assert_eq!(other[1].args, vec!["--clipboard", "--input"]);
    assert_eq!(other[2].program, "wl-copy");
    assert!(other[2].args.is_empty());
}
