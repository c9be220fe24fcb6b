use print_break::{
    colorize_debug, colorize_json, colorize_toml, colorize_toml_value, colorize_value,
    colorize_yaml, colorize_yaml_value, strip_ansi_codes, Colors,
};

const GREEN: &str = "\x1b[1;32m";
const CYAN: &str = "\x1b[36m";
const YELLOW: &str = "\x1b[1;33m";
const MAGENTA: &str = "\x1b[35m";
const WHITE: &str = "\x1b[37m";
const GRAY: &str = "\x1b[90m";
const RESET: &str = "\x1b[0m";

fn paint(color: &str, text: &str) -> String {
    format!("{}{}{}", color, text, RESET)
}

fn tty() -> Colors {
    Colors::get(true)
}

#[test]
fn the_palette_of_a_terminal_and_the_plain_one() {
    let c = Colors::get(true);
    assert_eq!(c.green, GREEN);
    assert_eq!(c.cyan, CYAN);
    assert_eq!(c.yellow, YELLOW);
    assert_eq!(c.magenta, MAGENTA);
    assert_eq!(c.white, WHITE);
    assert_eq!(c.gray, GRAY);
    assert_eq!(c.red, "\x1b[1;31m");
    assert_eq!(c.reset, RESET);
    let p = Colors::get(false);
    for code in [p.green, p.cyan, p.yellow, p.magenta, p.white, p.gray, p.red, p.reset] {
        assert_eq!(code, "");
    }
}

#[test]
fn a_plain_palette_gives_the_text_without_codes() {
    let plain = Colors::get(false);
    let text = "key:   value  \r\n- x\n  a = [1, 2]  \n{\"k\": 1}\n  [\nb = [\n\n";
    let joined = text.lines().collect::<Vec<&str>>().join("\n");
    assert_eq!(colorize_json(text, &plain), text);
    assert_eq!(colorize_toml(text, &plain), joined);
    assert_eq!(colorize_yaml(text, &plain), joined);
    assert_eq!(strip_ansi_codes(&colorize_json(text, &tty())), text);
    assert_eq!(strip_ansi_codes(&colorize_toml(text, &tty())), joined);
    assert_eq!(strip_ansi_codes(&colorize_yaml(text, &tty())), joined);
    for depth in [0, 1, 4] {
        assert_eq!(
            strip_ansi_codes(&colorize_debug(text, &tty(), depth)),
            colorize_debug(text, &plain, depth)
        );
    }
    assert_eq!(colorize_debug("A {\n    x: 1,\n}", &plain, 0), "A { ... }");
    assert_eq!(colorize_debug("A {\n    x: 1,\n}", &plain, 4), "A {\n│ x: 1,\n}");
    assert_eq!(colorize_debug("\n", &plain, 4), "");
    assert_eq!(strip_ansi_codes(&colorize_debug("\n", &tty(), 4)), "");
    assert_eq!(colorize_debug("a\n\n", &plain, 4), "a\n");
    assert_eq!(strip_ansi_codes(&colorize_debug("a\n\n", &tty(), 4)), "a\n");
}

#[test]
fn an_array_that_is_not_closed_on_the_line_is_left_as_it_is() {
    let c = tty();
    assert_eq!(strip_ansi_codes(&colorize_toml("a = [", &c)), "a = [");
    assert_eq!(
        colorize_toml("a = [", &c),
        format!("{}{}[", paint(CYAN, "a"), paint(GRAY, " = "))
    );
    let value: toml::Value = toml::from_str("list = [1, 2, 3]\nname = \"n\"").unwrap();
    let pretty = toml::to_string_pretty(&value).unwrap();
    assert!(pretty.contains("list = [\n"));
    assert_eq!(
        strip_ansi_codes(&colorize_toml(&pretty, &c)),
        pretty.lines().collect::<Vec<&str>>().join("\n")
    );
}

#[test]
fn json_keys_values_and_punctuation() {
    let got = colorize_json("{\n  \"a\": 1\n}", &tty());
    let want = format!(
        "{}\n  {}{} {}\n{}",
        paint(GRAY, "{"),
        paint(CYAN, "\"a\""),
        paint(GRAY, ":"),
        paint(YELLOW, "1"),
        paint(GRAY, "}")
    );
    assert_eq!(got, want);
}

#[test]
fn json_strings_in_arrays_are_values() {
    let got = colorize_json("[\"k\", {\"k\": \"v\", \"l\": [\"m\"]}, \"n\"]", &tty());
    let want = [
        paint(GRAY, "["),
        paint(MAGENTA, "\"k\""),
        paint(GRAY, ","),
        " ".to_string(),
        paint(GRAY, "{"),
        paint(CYAN, "\"k\""),
        paint(GRAY, ":"),
        " ".to_string(),
        paint(MAGENTA, "\"v\""),
        paint(GRAY, ","),
        " ".to_string(),
        paint(CYAN, "\"l\""),
        paint(GRAY, ":"),
        " ".to_string(),
        paint(GRAY, "["),
        paint(MAGENTA, "\"m\""),
        paint(GRAY, "]"),
        paint(GRAY, "}"),
        paint(GRAY, ","),
        " ".to_string(),
        paint(MAGENTA, "\"n\""),
        paint(GRAY, "]"),
    ]
    .concat();
    assert_eq!(got, want);
}

#[test]
fn json_numbers_and_words() {
    let c = tty();
    assert_eq!(colorize_json("-1.5e+3", &c), paint(YELLOW, "-1.5e+3"));
    assert_eq!(colorize_json("true", &c), paint(YELLOW, "true"));
    assert_eq!(colorize_json("false", &c), paint(YELLOW, "false"));
    assert_eq!(colorize_json("null", &c), paint(YELLOW, "null"));
    assert_eq!(colorize_json("trux", &c), "trux");
    assert_eq!(colorize_json("tr", &c), "tr");
    assert_eq!(colorize_json("t", &c), "t");
    assert_eq!(colorize_json("nul", &c), "nul");
    assert_eq!(colorize_json("fals3", &c), "fals3");
    assert_eq!(colorize_json("tnull", &c), "tnull");
    assert_eq!(colorize_json("xnull", &c), format!("x{}", paint(YELLOW, "null")));
    assert_eq!(colorize_json("\"true, 1\"", &c), paint(CYAN, "\"true, 1\""));
    assert_eq!(colorize_json(",\"a\"", &c), format!("{}{}", paint(GRAY, ","), paint(CYAN, "\"a\"")));
    assert_eq!(colorize_json("]", &c), paint(GRAY, "]"));
    assert_eq!(colorize_json("", &c), "");
}

#[test]
fn coloured_json_shows_the_same_text() {
    let docs = [
        "{\"status\": \"success\", \"data\": {\"user_id\": 123, \"tags\": [\"a\", null, true, -0.5e3]}}",
        "[]",
        "[[[1]], {\"k\": {\"l\": [false]}}]",
        "\"just a string with : and , and { inside\"",
        "12",
    ];
    for doc in docs {
        let value: serde_json::Value = serde_json::from_str(doc).unwrap();
        let pretty = serde_json::to_string_pretty(&value).unwrap();
        let shown = strip_ansi_codes(&colorize_json(&pretty, &tty()));
        assert_eq!(shown, pretty);
        let again: serde_json::Value = serde_json::from_str(&shown).unwrap();
        assert_eq!(again, value);
    }
}

#[test]
fn toml_sections_keys_and_values() {
    let text = "[server]\nhost = \"localhost\"\nport = 8080\n  on = true\nwhen = 1979-05-27\n\n# note\n";
    let want = [
        paint(GREEN, "[server]"),
        format!("{}{}{}", paint(CYAN, "host"), paint(GRAY, " = "), paint(MAGENTA, "\"localhost\"")),
        format!("{}{}{}", paint(CYAN, "port"), paint(GRAY, " = "), paint(YELLOW, "8080")),
        format!("  {}{}{}", paint(CYAN, "on"), paint(GRAY, " = "), paint(YELLOW, "true")),
        format!("{}{}1979-05-27", paint(CYAN, "when"), paint(GRAY, " = ")),
        String::new(),
        "# note".to_string(),
    ]
    .join("\n");
    assert_eq!(colorize_toml(text, &tty()), want);
}

#[test]
fn toml_arrays_are_coloured_by_element() {
    let c = tty();
    let sep = paint(GRAY, ", ");
    assert_eq!(
        colorize_toml_value("[1, \"a\", true]", &c),
        format!(
            "{}{}{}{}{}{}{}",
            paint(GRAY, "["),
            paint(YELLOW, "1"),
            sep,
            paint(MAGENTA, "\"a\""),
            sep,
            paint(YELLOW, "true"),
            paint(GRAY, "]")
        )
    );
    assert_eq!(colorize_toml_value("[]", &c), format!("{}{}", paint(GRAY, "["), paint(GRAY, "]")));
    assert_eq!(colorize_toml_value("[", &c), "[");
    assert_eq!(colorize_toml_value("[é", &c), "[é");
    assert_eq!(colorize_toml_value("[1, 2", &c), "[1, 2");
    assert_eq!(
        colorize_toml_value("[[1, 2], [3]]", &c),
        format!(
            "{}{}{}{}{}{}{}{}{}",
            paint(GRAY, "["),
            "[1",
            sep,
            "2]",
            sep,
            paint(GRAY, "["),
            paint(YELLOW, "3"),
            paint(GRAY, "]"),
            paint(GRAY, "]")
        )
    );
    assert_eq!(
        colorize_toml_value(" [ 1,  2 ] ", &c),
        format!(
            " {} {}{} {} {} ",
            paint(GRAY, "["),
            paint(YELLOW, "1"),
            sep.replace(", ", ", "),
            paint(YELLOW, "2"),
            paint(GRAY, "]")
        )
    );
    assert_eq!(colorize_toml_value(" 1.5 ", &c), format!(" {} ", paint(YELLOW, "1.5")));
    assert_eq!(colorize_toml_value("\"", &c), paint(MAGENTA, "\""));
    assert_eq!(colorize_toml_value(" bare ", &c), " bare ");
    assert_eq!(colorize_toml_value("", &c), "");
}

#[test]
fn toml_lines_with_space_at_the_end_keep_their_indentation() {
    let got = colorize_toml("  é = 1 \nx", &tty());
    let want = format!(
        "  {}{}{} \nx",
        paint(CYAN, "é"),
        paint(GRAY, " = "),
        paint(YELLOW, "1")
    );
    assert_eq!(got, want);
}

#[test]
fn yaml_keys_values_and_items() {
    let text = "key: value\ncount: 3\n- item\n  - name: x\n# comment: here\nurl: http://x\nempty:\nflag: true\nnone: ~\nquoted: 'a: b'\njust text\n";
    let colon = paint(GRAY, ":");
    let dash = paint(GRAY, "-");
    let want = [
        format!("{}{} {}", paint(CYAN, "key"), colon, paint(MAGENTA, "value")),
        format!("{}{} {}", paint(CYAN, "count"), colon, paint(YELLOW, "3")),
        format!("{} {}", dash, paint(MAGENTA, "item")),
        format!("  {} {}{} {}", dash, paint(CYAN, "name"), colon, paint(MAGENTA, "x")),
        "# comment: here".to_string(),
        format!("{}{} http://x", paint(CYAN, "url"), colon),
        format!("{}{}", paint(CYAN, "empty"), colon),
        format!("{}{} {}", paint(CYAN, "flag"), colon, paint(YELLOW, "true")),
        format!("{}{} {}", paint(CYAN, "none"), colon, paint(YELLOW, "~")),
        format!("{}{} {}", paint(CYAN, "quoted"), colon, paint(MAGENTA, "'a: b'")),
        "just text".to_string(),
    ]
    .join("\n");
    assert_eq!(colorize_yaml(text, &tty()), want);
}

#[test]
fn yaml_values() {
    let c = tty();
    assert_eq!(colorize_yaml_value(" \"q\" ", &c), format!(" {} ", paint(MAGENTA, "\"q\"")));
    assert_eq!(colorize_yaml_value("null", &c), paint(YELLOW, "null"));
    assert_eq!(colorize_yaml_value("-2.5", &c), paint(YELLOW, "-2.5"));
    assert_eq!(colorize_yaml_value("nan", &c), paint(YELLOW, "nan"));
    assert_eq!(colorize_yaml_value("plain words", &c), paint(MAGENTA, "plain words"));
    assert_eq!(colorize_yaml_value(" a:b ", &c), " a:b ");
    assert_eq!(colorize_yaml_value("  ", &c), "  ");
}

#[test]
fn yaml_item_with_space_at_the_end() {
    let got = colorize_yaml("x: 1\n  - é  \ny: 2", &tty());
    let want = format!(
        "{}{} {}\n  {} {}  \n{}{} {}",
        paint(CYAN, "x"),
        paint(GRAY, ":"),
        paint(YELLOW, "1"),
        paint(GRAY, "-"),
        paint(MAGENTA, "é"),
        paint(CYAN, "y"),
        paint(GRAY, ":"),
        paint(YELLOW, "2")
    );
    assert_eq!(got, want);
}

#[test]
fn scalars_of_debug_text() {
    let c = tty();
    let comma = paint(GRAY, ",");
    assert_eq!(colorize_value("\"s\",", &c), format!("{}{}", paint(MAGENTA, "\"s\""), comma));
    assert_eq!(colorize_value("42", &c), paint(YELLOW, "42"));
    assert_eq!(colorize_value("-4.5,", &c), format!("{}{}", paint(YELLOW, "-4.5"), comma));
    assert_eq!(colorize_value("--4", &c), paint(YELLOW, "--4"));
    assert_eq!(colorize_value("true,", &c), format!("{}{}", paint(YELLOW, "true"), comma));
    assert_eq!(colorize_value("None,", &c), format!("{}{}", paint(WHITE, "None"), comma));
    assert_eq!(colorize_value("Some(3),,", &c), format!("{}{}", paint(WHITE, "Some(3)"), comma));
    assert_eq!(colorize_value("Active", &c), paint(WHITE, "Active"));
    assert_eq!(colorize_value("", &c), paint(WHITE, ""));
}

#[test]
fn structure_of_a_record() {
    #[derive(Debug)]
    #[allow(dead_code)]
    struct User {
        id: u32,
        name: String,
        tags: Vec<String>,
        opt: Option<u8>,
    }
    let user = User { id: 1, name: "A".to_string(), tags: vec!["x".to_string()], opt: None };
    let text = format!("{:#?}", user);
    let guide = format!("{} ", paint(GRAY, "│"));
    let comma = paint(GRAY, ",");
    let want = [
        format!("{} {}", paint(GREEN, "User"), paint(GRAY, "{")),
        format!("{}{}{}: {}{}", guide, paint(CYAN, "id"), GRAY, paint(YELLOW, "1"), comma),
        format!("{}{}{}: {}{}", guide, paint(CYAN, "name"), GRAY, paint(MAGENTA, "\"A\""), comma),
        format!("{}{} {}", guide, paint(GREEN, "tags:"), paint(GRAY, "[")),
        format!("{}{}{}{}", guide, guide, paint(MAGENTA, "\"x\""), comma),
        format!("{}{}", guide, paint(GRAY, "],")),
        format!("{}{}{}: {}{}", guide, paint(CYAN, "opt"), GRAY, paint(WHITE, "None"), comma),
        paint(GRAY, "}"),
    ]
    .join("\n");
    assert_eq!(colorize_debug(&text, &tty(), 4), want);
}

fn nested(levels: usize) -> String {
    let mut text = String::new();
    for k in 0..levels {
        text.push_str(&format!("{}L{} {{\n", "    ".repeat(k), k));
    }
    text.push_str(&format!("{}x: 1,\n", "    ".repeat(levels)));
    for k in (0..levels).rev() {
        text.push_str(&format!("{}}}{}\n", "    ".repeat(k), if k > 0 { "," } else { "" }));
    }
    text
}

#[test]
fn a_block_at_the_depth_limit_is_one_line() {
    let shown = colorize_debug(&nested(10), &tty(), 4);
    let plain = strip_ansi_codes(&shown);
    let lines: Vec<&str> = plain.lines().collect();
    assert_eq!(
        lines,
        vec![
            "L0 {",
            "│ L1 {",
            "│ │ L2 {",
            "│ │ │ L3 {",
            "│ │ │ │ L4 { ... }",
            "│ │ │ },",
            "│ │ },",
            "│ },",
            "}",
        ]
    );
    assert_eq!(lines.iter().filter(|l| l.contains("{ ... }")).count(), 1);
    let marker = format!(
        "{} {}",
        paint(GREEN, "L4"),
        paint(GRAY, "{ ... }")
    );
    assert!(shown.contains(&marker));
    let deeper = strip_ansi_codes(&colorize_debug(&nested(40), &tty(), 4));
    assert_eq!(deeper.lines().count(), 9);
}

#[test]
fn the_depth_limit_can_be_moved() {
    let all = strip_ansi_codes(&colorize_debug(&nested(3), &tty(), 4));
    assert_eq!(all.lines().count(), 7);
    let none = strip_ansi_codes(&colorize_debug(&nested(3), &tty(), 0));
    assert_eq!(none, "L0 { ... }");
    let one = strip_ansi_codes(&colorize_debug("[\n    [\n        1,\n    ],\n    2,\n]", &tty(), 1));
    assert_eq!(one, "[\n│ [ ... ]\n]");
}

#[test]
fn lines_after_a_collapsed_block_stay_hidden_until_the_parent_closes() {
    let text = "A {\n    b: B {\n        c: 1,\n    },\n    d: 2,\n}\nE";
    let shown = strip_ansi_codes(&colorize_debug(text, &tty(), 1));
    assert_eq!(shown, "A {\n│ b: B { ... }\n}\nE");
}

#[test]
fn malformed_structure_is_rendered_without_failing() {
    let c = tty();
    assert_eq!(strip_ansi_codes(&colorize_debug("}\n}\n]", &c, 4)), "}\n}\n]");
    assert_eq!(strip_ansi_codes(&colorize_debug("{", &c, 4)), "{");
    assert_eq!(strip_ansi_codes(&colorize_debug("a: {\n", &c, 4)), "a: {");
    assert_eq!(strip_ansi_codes(&colorize_debug("  x\n\u{a0}\u{a0}y", &c, 4)), "x\n│ y");
    assert_eq!(colorize_debug("", &c, 4), "");
}
