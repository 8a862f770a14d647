use tarah::text::{chars_of, is_whitespace, join, lines, split_on_str, split_whitespace, trim};

fn strings(v: &[&str]) -> Vec<String> {
    v.iter().map(|s| s.to_string()).collect()
}

#[test]
fn whitespace_matches_char_is_whitespace() {
    for c in ['\t', '\n', '\u{b}', '\u{c}', '\r', ' ', '\u{85}', '\u{a0}', '\u{1680}', '\u{2000}', '\u{200a}', '\u{2028}', '\u{2029}', '\u{202f}', '\u{205f}', '\u{3000}'] {
        assert!(is_whitespace(c), "{:?}", c);
        assert!(c.is_whitespace());
    }
    for c in ['a', '-', '?', '\u{0}', '\u{200b}', '\u{feff}', '\u{180e}', 'é'] {
        assert!(!is_whitespace(c), "{:?}", c);
        assert!(!c.is_whitespace());
    }
}

#[test]
fn chars_of_keeps_every_char() {
    assert_eq!(chars_of("aé?"), vec!['a', 'é', '?']);
    assert_eq!(chars_of(""), Vec::<char>::new());
}

#[test]
fn trim_removes_both_ends() {
    assert_eq!(trim("  -S foo \t\n"), "-S foo");
    assert_eq!(trim("   "), "");
    assert_eq!(trim(""), "");
    assert_eq!(trim("\u{3000}x y\u{a0}"), "x y");
    assert_eq!(trim("x"), "x");
}

#[test]
fn split_whitespace_gives_words() {
    assert_eq!(split_whitespace("  -S  foo\tbar\n"), strings(&["-S", "foo", "bar"]));
    assert_eq!(split_whitespace(""), Vec::<String>::new());
    assert_eq!(split_whitespace(" \t "), Vec::<String>::new());
    assert_eq!(split_whitespace("one"), strings(&["one"]));
    let text = "a\u{2003}b  c ";
    let std_words: Vec<String> = text.split_whitespace().map(|s| s.to_string()).collect();
    assert_eq!(split_whitespace(text), std_words);
}

#[test]
fn split_on_takes_matches_from_the_left() {
    assert_eq!(split_on_str("-S a ??? -R b", "???"), strings(&["-S a ", " -R b"]));
    assert_eq!(split_on_str("????", "???"), strings(&["", "?"]));
    assert_eq!(split_on_str("", "???"), strings(&[""]));
    assert_eq!(split_on_str("???", "???"), strings(&["", ""]));
    assert_eq!(split_on_str("a??b", "???"), strings(&["a??b"]));
    for text in ["x??????y", "??a???b???", "no sep"] {
        let std_pieces: Vec<String> = text.split("???").map(|s| s.to_string()).collect();
        assert_eq!(split_on_str(text, "???"), std_pieces);
    }
}

#[test]
fn lines_follow_str_lines() {
    assert_eq!(lines("a 1\r\nb 2\n\nc"), strings(&["a 1", "b 2", "", "c"]));
    assert_eq!(lines("a\n"), strings(&["a"]));
    assert_eq!(lines(""), Vec::<String>::new());
    assert_eq!(lines("\n"), strings(&[""]));
    assert_eq!(lines("x\r"), strings(&["x\r"]));
    for text in ["p 1\nq 2\r\n\r\n", "\r\n\n", "only"] {
        let std_lines: Vec<String> = text.lines().map(|s| s.to_string()).collect();
        assert_eq!(lines(text), std_lines);
    }
}

#[test]
fn join_puts_separator_between() {
    assert_eq!(join(&strings(&["-S", "a", "???", "-R", "b"]), " "), "-S a ??? -R b");
    assert_eq!(join(&strings(&[]), " "), "");
    assert_eq!(join(&strings(&["x"]), " "), "x");
}
