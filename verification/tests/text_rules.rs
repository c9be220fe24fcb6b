use print_break::lines::{byte_len, replace_all, split_lines, split_words};
use print_break::number::{is_float, parse_unsigned, push_decimal};
use print_break::text::{
    char_is_space, chars_of, finishes_with, search, string_of, strip, strip_end, strip_start,
    CharSet,
};
use print_break::{strip_ansi_codes, truncate_output, word_wrap, Colors};

fn chars(s: &str) -> Vec<char> {
    s.chars().collect()
}

fn text(v: &[char]) -> String {
    v.iter().collect()
}

const SAMPLES: [&str; 22] = [
    "",
    " ",
    "a",
    "  a b  ",
    "\ta\n",
    "a\nb",
    "a\nb\n",
    "a\r\nb\r\n",
    "a\rb",
    "a\r",
    "\n",
    "\n\n",
    "\r\n",
    "a\r\r\nb",
    "one two  three\tfour\u{a0}five",
    "\u{2003}wide\u{3000}",
    "é = ü, ö",
    "x, y, z",
    ", ",
    "a, ",
    "k: v: w",
    "\u{85}next\u{2028}line",
];

#[test]
fn white_space_agrees_with_char() {
    let mut u: u32 = 0;
    while u <= 0x10ffff {
        if let Some(c) = char::from_u32(u) {
            assert_eq!(char_is_space(c), c.is_whitespace(), "U+{:04X}", u);
        }
        u += 1;
    }
}

#[test]
fn conversions_keep_every_character() {
    for s in SAMPLES {
        assert_eq!(chars_of(s), chars(s));
        assert_eq!(string_of(&chars(s)), s);
    }
}

#[test]
fn trimming_agrees_with_str() {
    for s in SAMPLES {
        let v = chars(s);
        assert_eq!(text(strip(&v)), s.trim(), "{:?}", s);
        assert_eq!(text(strip_start(&v, CharSet::Space)), s.trim_start(), "{:?}", s);
        assert_eq!(text(strip_end(&v, CharSet::Space)), s.trim_end(), "{:?}", s);
        assert_eq!(text(strip_end(&v, CharSet::Only(','))), s.trim_end_matches(','));
        assert_eq!(
            text(strip_start(&v, CharSet::SpaceOrDash)),
            s.trim_start_matches([' ', '-'])
        );
        assert_eq!(
            text(strip_end(&v, CharSet::Opener)),
            s.trim_end_matches(['{', '[', '(', ' '])
        );
    }
    assert_eq!(text(strip_end(&chars("User {"), CharSet::Opener)), "User");
    assert_eq!(text(strip_end(&chars("a,,"), CharSet::Only(','))), "a");
    assert_eq!(text(strip_start(&chars(" - - key"), CharSet::SpaceOrDash)), "key");
}

#[test]
fn lines_agree_with_str() {
    for s in SAMPLES {
        let v = chars(s);
        let got: Vec<String> = split_lines(&v).iter().map(|l| text(l)).collect();
        let want: Vec<String> = s.lines().map(|l| l.to_string()).collect();
        assert_eq!(got, want, "{:?}", s);
    }
    let v = chars("a\r\nb\r");
    let got: Vec<String> = split_lines(&v).iter().map(|l| text(l)).collect();
    assert_eq!(got, vec!["a".to_string(), "b\r".to_string()]);
}

#[test]
fn words_agree_with_str() {
    for s in SAMPLES {
        let v = chars(s);
        let got: Vec<String> = split_words(&v).iter().map(|l| text(l)).collect();
        let want: Vec<String> = s.split_whitespace().map(|l| l.to_string()).collect();
        assert_eq!(got, want, "{:?}", s);
    }
}

#[test]
fn searching_agrees_with_str() {
    let pats = ["a", ", ", ": ", " = ", "\n", "b\r", "five", "zz"];
    for s in SAMPLES {
        let v = chars(s);
        for p in pats {
            let pv = chars(p);
            let want = s.find(p).map(|b| s[..b].chars().count());
            assert_eq!(search(&v, &pv), want, "{:?} in {:?}", p, s);
            assert_eq!(finishes_with(&v, &pv), s.ends_with(p));
        }
    }
    assert_eq!(search(&chars("aab"), &chars("ab")), Some(1));
    assert_eq!(search(&chars("ab"), &chars("abc")), None);
}

#[test]
fn replacing_agrees_with_str() {
    let cases = [("aaa", "aa", "b"), ("a\\nb\\n", "\\n", "\n"), ("\\\\n", "\\n", "\n"), ("abc", "x", "y"), ("", "a", "b"), ("abab", "ab", "")];
    for (s, from, to) in cases {
        assert_eq!(text(&replace_all(&chars(s), &chars(from), &chars(to))), s.replace(from, to));
    }
    for s in SAMPLES {
        assert_eq!(text(&replace_all(&chars(s), &chars(", "), &chars(";"))), s.replace(", ", ";"));
    }
}

#[test]
fn byte_length_agrees_with_str() {
    for s in SAMPLES {
        assert_eq!(byte_len(&chars(s)), s.len() as u128);
    }
    assert_eq!(byte_len(&chars("aé€😀")), 10);
}

#[test]
fn decimal_agrees_with_display() {
    for n in [0u128, 1, 9, 10, 11, 99, 100, 12345, u64::MAX as u128, u128::MAX] {
        let mut out = Vec::new();
        push_decimal(&mut out, n);
        assert_eq!(text(&out), n.to_string());
    }
}

#[test]
fn unsigned_integers_agree_with_parse() {
    let cases = [
        "", "0", "4", "+4", "-4", "007", "12", " 12", "12 ", "1_2", "+", "++1", "4.0", "abc",
        "18446744073709551615", "18446744073709551616", "99999999999999999999999", "٣",
    ];
    for s in cases {
        assert_eq!(parse_unsigned(&chars(s)), s.parse::<usize>().ok(), "{:?}", s);
    }
}

#[test]
fn float_literals_agree_with_parse() {
    let cases = [
        "", "0", "1", "-1", "+1", "1.", ".5", ".", "-.", "+.5", "1.5", "1.5.2", "1e5", "1E5",
        "1e+5", "1e-5", "1e", "1e+", "e5", ".e5", "5.e3", "1.5e10", "1e5.0", "inf", "-inf",
        "+inf", "Inf", "INF", "infinity", "-Infinity", "INFINITY", "infinit", "nan", "NaN",
        "-nan", "+NAN", "nane", "in", "1_000", "0x10", " 1", "1 ", "1f", "--1", "+-1", "1e99999999999999999999",
        "000", "0.0.", "١", "1e5e5", "infinityy", "  ", "-", "+", "1.e", "12abc",
    ];
    for s in cases {
        assert_eq!(is_float(&chars(s)), s.parse::<f64>().is_ok(), "{:?}", s);
    }
}

#[test]
fn escape_sequences_are_stripped() {
    assert_eq!(strip_ansi_codes("\x1b[1;32mgreen\x1b[0m plain"), "green plain");
    assert_eq!(strip_ansi_codes("no codes"), "no codes");
    assert_eq!(strip_ansi_codes("a\x1b[36"), "a");
    assert_eq!(strip_ansi_codes("a\x1b\x1b[0mb"), "ab");
    assert_eq!(strip_ansi_codes("m\x1bmm"), "mm");
    assert_eq!(strip_ansi_codes(""), "");
}

#[test]
fn short_lines_are_kept_and_long_lines_are_filled() {
    assert_eq!(word_wrap("short line", 80), "short line");
    assert_eq!(word_wrap("  keeps   its   spaces", 80), "  keeps   its   spaces");
    assert_eq!(word_wrap("aaa bbb ccc ddd", 7), "aaa bbb\nccc ddd");
    assert_eq!(word_wrap("aaa bbb ccc ddd", 8), "aaa bbb\nccc ddd");
    assert_eq!(word_wrap("aaa   bbb    ccc", 7), "aaa bbb\nccc");
    assert_eq!(word_wrap("abcdefghij kl", 4), "abcdefghij\nkl");
    assert_eq!(word_wrap("one\ntwo three four\n", 9), "one\ntwo three\nfour");
    assert_eq!(word_wrap("          ", 4), "");
    assert_eq!(word_wrap("ééé ééé", 7), "ééé\nééé");
    assert_eq!(word_wrap("", 10), "");
}

#[test]
fn fifty_lines_are_kept_and_fifty_one_are_cut() {
    let c = Colors::get(false);
    let fifty: Vec<String> = (1..=50).map(|n| format!("line {}", n)).collect();
    let text50 = fifty.join("\n");
    assert_eq!(truncate_output(&text50, &c), text50);
    let with_feed = format!("{}\n", text50);
    assert_eq!(truncate_output(&with_feed, &c), with_feed);
    let text51 = format!("{}\nline 51", text50);
    assert_eq!(truncate_output(&text51, &c), format!("{}\n... (1 more lines)", text50));
    let text60 = format!("{}\n{}", text50, "x\n".repeat(10));
    let cut = truncate_output(&text60, &c);
    assert_eq!(cut.lines().count(), 51);
    assert_eq!(cut.lines().last().unwrap(), "... (10 more lines)");
    let tty = Colors::get(true);
    assert_eq!(
        truncate_output(&text51, &tty),
        format!("{}\n\x1b[90m... (1 more lines)\x1b[0m", text50)
    );
    assert_eq!(truncate_output("", &c), "");
}
