use print_break::{
    detect, format_text, format_text_full, format_value, format_value_full, max_depth,
    render_display, render_full, Colors, DetectedFormat,
};

fn plain() -> Colors {
    Colors::get(false)
}

#[test]
fn format_json_string() {
    let json = r#"{"name": "test", "value": 42}"#;
    let formatted = format_value(&json, &plain(), max_depth(None));
    assert!(formatted.contains("\"name\": \"test\""));
    assert!(formatted.contains('\n'));
}

#[test]
fn format_non_json() {
    let x = 42;
    let formatted = format_value(&x, &plain(), max_depth(None));
    assert_eq!(formatted, "42");
}

#[test]
fn format_struct() {
    #[derive(Debug)]
    #[allow(dead_code)]
    struct Test {
        a: i32,
        b: String,
    }

    let t = Test { a: 1, b: "hello".to_string() };
    let formatted = format_value(&t, &plain(), max_depth(None));
    assert!(formatted.contains("Test"));
}

#[test]
fn truncation_works() {
    let long_vec: Vec<i32> = (0..1000).collect();
    let formatted = format_value(&long_vec, &plain(), max_depth(None));
    assert!(formatted.contains("more lines"));
}

#[test]
fn json_example_is_detected_and_indented_by_two() {
    let text = r#"{"status": "success", "data": {"user_id": 123}}"#;
    let debug = format!("{:?}", text);
    let (format, pretty) = detect(&debug);
    assert_eq!(format, DetectedFormat::Json);
    assert!(pretty.lines().any(|l| l == "  \"status\": \"success\","));
    assert!(pretty.lines().any(|l| l == "    \"user_id\": 123"));
    assert_eq!(
        pretty,
        "{\n  \"status\": \"success\",\n  \"data\": {\n    \"user_id\": 123\n  }\n}"
    );
}

#[test]
fn json_display_has_header_and_body() {
    let text = r#"{"a": [1, true]}"#;
    let shown = format_value(&text, &plain(), 4);
    assert_eq!(shown, "(json)\n{\n  \"a\": [\n    1,\n    true\n  ]\n}");
    let full = format_value_full(&text);
    assert_eq!(full, "{\n  \"a\": [\n    1,\n    true\n  ]\n}");
}

#[test]
fn toml_example_is_detected_and_keeps_key_and_section() {
    let text = "key = \"value\"\n[section]\nother = 1";
    let debug = format!("{:?}", text);
    let (format, pretty) = detect(&debug);
    assert_eq!(format, DetectedFormat::Toml);
    assert_eq!(pretty, "key = \"value\"\n\n[section]\nother = 1\n");
    let shown = format_value(&text, &plain(), 4);
    assert_eq!(shown, "(toml)\nkey = \"value\"\n\n[section]\nother = 1");
}

#[test]
fn toml_is_written_out_anew() {
    let text = "[server]\nport   =   8080";
    let (format, pretty) = detect(&format!("{:?}", text));
    assert_eq!(format, DetectedFormat::Toml);
    assert_eq!(pretty, "[server]\nport = 8080\n");
}

#[test]
fn yaml_mapping_is_detected_and_written_out_anew() {
    let text = "server:\n  host:   localhost\n  port: 8080\n";
    let (format, pretty) = detect(&format!("{:?}", text));
    assert_eq!(format, DetectedFormat::Yaml);
    assert_eq!(pretty, "server:\n  host: localhost\n  port: 8080\n");
    assert_eq!(
        format_value(&text, &plain(), 4),
        "(yaml)\nserver:\n  host: localhost\n  port: 8080"
    );
    assert_eq!(format_value_full(&text), "server:\n  host: localhost\n  port: 8080");
}

#[test]
fn yaml_sequence_is_detected() {
    let text = "- a: 1\n- b: 2\n";
    let (format, _) = detect(&format!("{:?}", text));
    assert_eq!(format, DetectedFormat::Yaml);
}

#[test]
fn yaml_scalar_falls_through_to_plain_text() {
    let text = "\"note: this is one quoted scalar\"";
    let (format, raw) = detect(&format!("{:?}", text));
    assert_eq!(format, DetectedFormat::PlainText);
    assert_eq!(raw, text);
}

#[test]
fn sentence_with_equals_sign_is_plain_text() {
    let text = "the rule x = y holds";
    let (format, raw) = detect(&format!("{:?}", text));
    assert_eq!(format, DetectedFormat::PlainText);
    assert_eq!(raw, text);
    assert_eq!(
        format_value(&text, &plain(), 4),
        "(string, 20 chars)\nthe rule x = y holds"
    );
}

#[test]
fn broken_json_falls_through() {
    let text = "{not json at all";
    let (format, raw) = detect(&format!("{:?}", text));
    assert_eq!(format, DetectedFormat::PlainText);
    assert_eq!(raw, text);
}

#[test]
fn json_wins_over_toml_and_yaml() {
    let text = "[1, 2]";
    let (format, pretty) = detect(&format!("{:?}", text));
    assert_eq!(format, DetectedFormat::Json);
    assert_eq!(pretty, "[\n  1,\n  2\n]");
}

#[test]
fn debug_text_without_quotes_is_structural() {
    let (format, raw) = detect("Some(3)");
    assert_eq!(format, DetectedFormat::Structure);
    assert_eq!(raw, "Some(3)");
    let (format, _) = detect("\"");
    assert_eq!(format, DetectedFormat::Structure);
}

#[test]
fn unescaping_is_applied_in_order() {
    // a backslash before `n` in the text is written as two backslashes and
    // `n` in the debug text; the pass for line feeds sees the second
    // backslash and the `n` first
    let (format, raw) = detect("\"a\\\\nb\"");
    assert_eq!(format, DetectedFormat::PlainText);
    assert_eq!(raw, "a\\\nb");
    let (_, raw) = detect("\"say \\\"hi\\\"\\tnow\"");
    assert_eq!(raw, "say \"hi\"\tnow");
}

#[test]
fn plain_text_counts_bytes_and_wraps() {
    let text = "é".repeat(50) + " " + &"x".repeat(50);
    let shown = format_value(&text, &plain(), 4);
    let expected = format!("(string, 151 chars)\n{}\n{}", "é".repeat(50), "x".repeat(50));
    assert_eq!(shown, expected);
    let full = format_value_full(&text);
    assert_eq!(full, expected["(string, 151 chars)\n".len()..].to_string());
}

#[test]
fn full_text_wraps_at_one_hundred() {
    let text = "word ".repeat(30);
    let shown = format_text(&format!("{:?}", text), "", &plain(), 4);
    let full = format_text_full(&format!("{:?}", text), "");
    let first_shown = shown.lines().nth(1).unwrap();
    let first_full = full.lines().next().unwrap();
    assert_eq!(first_shown.len(), 79);
    assert_eq!(first_full.len(), 99);
}

#[test]
fn structural_text_uses_the_indented_debug_text() {
    let value = vec![Some(1), None];
    let shown = format_value(&value, &plain(), 4);
    assert_eq!(shown, "[\n│ Some(\n│ │ 1,\n│ ),\n│ None,\n]");
    assert_eq!(format_value_full(&value), shown);
    assert_eq!(
        format_text("[Some(1), None]", "[\n    Some(\n        1,\n    ),\n    None,\n]", &plain(), 4),
        shown
    );
}

#[test]
fn full_text_of_a_long_value_starts_like_the_display() {
    let long_vec: Vec<i32> = (0..1000).collect();
    let shown = format_value(&long_vec, &plain(), 4);
    let full = format_value_full(&long_vec);
    let shown_lines: Vec<&str> = shown.lines().collect();
    let full_lines: Vec<&str> = full.lines().collect();
    assert_eq!(shown_lines.len(), 51);
    assert_eq!(full_lines.len(), 1002);
    assert!(full_lines.len() >= shown_lines.len());
    assert_eq!(&shown_lines[..50], &full_lines[..50]);
    assert_eq!(shown_lines[50], "... (952 more lines)");
}

#[test]
fn render_display_and_full_by_format() {
    let c = plain();
    assert_eq!(render_display(DetectedFormat::Json, "[]", &c, 4), "(json)\n[]");
    assert_eq!(render_display(DetectedFormat::Toml, "a = 1\n", &c, 4), "(toml)\na = 1");
    assert_eq!(render_display(DetectedFormat::Yaml, "a: 1\n", &c, 4), "(yaml)\na: 1");
    assert_eq!(render_display(DetectedFormat::PlainText, "hi", &c, 4), "(string, 2 chars)\nhi");
    assert_eq!(render_display(DetectedFormat::Structure, "Some(\n    1,\n)", &c, 4), "Some(\n│ 1,\n)");
    assert_eq!(render_full(DetectedFormat::Json, "[]"), "[]");
    assert_eq!(render_full(DetectedFormat::Toml, "a = 1\n"), "a = 1\n");
    assert_eq!(render_full(DetectedFormat::Yaml, "a: 1\n"), "a: 1");
    assert_eq!(render_full(DetectedFormat::PlainText, "hi  "), "hi");
    assert_eq!(render_full(DetectedFormat::Structure, "Some(\n    1,\n)"), "Some(\n│ 1,\n)");
}

#[test]
fn display_in_colour_has_coloured_header() {
    let c = Colors::get(true);
    let shown = render_display(DetectedFormat::Json, "[]", &c, 4);
    assert_eq!(shown, "\x1b[90m(json)\x1b[0m\n\x1b[90m[\x1b[0m\x1b[90m]\x1b[0m");
}

#[derive(Debug)]
#[allow(dead_code)]
struct Level {
    id: u32,
    next: Option<Box<Level>>,
}

fn chain(levels: u32) -> Level {
    let mut value = Level { id: levels, next: None };
    for id in (0..levels).rev() {
        value = Level { id, next: Some(Box::new(value)) };
    }
    value
}

#[test]
fn deep_values_are_collapsed_without_a_terminal_too() {
    let value = chain(10);
    let shown = format_value(&value, &plain(), 4);
    assert!(shown.starts_with(
        "Level {\n│ id: 0,\n│ next: Some(\n│ │ Level {\n│ │ │ id: 1,\n│ │ │ next: Some(\n│ │ │ │ Level {\n│ │ │ │ │ id: 2,\n│ │ │ │ │ next: Some(\n│ │ │ │ │ │ Level {\n│ │ │ │ │ │ │ id: 3,\n│ │ │ │ │ │ │ next: Some(\n│ │ │ │ │ │ │ │ Level { ... }\n"
    ));
    assert_eq!(shown.matches("{ ... }").count(), 1);
    assert!(!shown.contains("id: 4"));
    assert!(shown.ends_with("\n}"));
    let full = format_value_full(&value);
    assert!(!full.contains("{ ... }"));
    assert!(full.contains("id: 10,"));
    assert_eq!(full.lines().count(), format!("{:#?}", value).lines().count());
}

#[test]
fn the_display_is_the_coloured_display_without_its_codes() {
    let tty = Colors::get(true);
    let value = chain(6);
    let text = "key = [1, 2]\n[table]\nlist = [\n    1,\n]\n";
    let yaml = "a:\n- b\n- c: d\n";
    assert_eq!(
        print_break::strip_ansi_codes(&format_value(&value, &tty, 4)),
        format_value(&value, &plain(), 4)
    );
    assert_eq!(
        print_break::strip_ansi_codes(&format_value(&text, &tty, 4)),
        format_value(&text, &plain(), 4)
    );
    assert_eq!(
        print_break::strip_ansi_codes(&format_value(&yaml, &tty, 4)),
        format_value(&yaml, &plain(), 4)
    );
}
