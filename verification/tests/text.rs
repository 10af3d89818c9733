use bar::numeral::{parse_usize, push_decimal, push_hex, push_padded};
use bar::text::{
    chars_of, find, find_numeric, is_numeric, is_white_space, rfind, same_text, split, split_words,
    string_of, trim,
};

fn chars(s: &str) -> Vec<char> {
    s.chars().collect()
}

fn strings(parts: Vec<Vec<char>>) -> Vec<String> {
    parts.into_iter().map(|p| p.into_iter().collect()).collect()
}

#[test]
fn characters_and_strings_convert_both_ways() {
    assert_eq!(chars_of("a\u{f3a7}b"), vec!['a', '\u{f3a7}', 'b']);
    assert_eq!(chars_of(""), Vec::<char>::new());
    assert_eq!(string_of(&['x', 'ö', '\u{f111}']), "xö\u{f111}");
    assert_eq!(string_of(&[]), "");
}

#[test]
fn same_text_compares_character_by_character() {
    assert!(same_text(&chars("TIME"), "TIME"));
    assert!(!same_text(&chars("TIME"), "TIMES"));
    assert!(!same_text(&chars("TIME"), "TIMe"));
    assert!(same_text(&chars(""), ""));
}

#[test]
fn find_gives_the_first_and_rfind_the_last() {
    let s = chars("a:b:c");
    assert_eq!(find(&s, ':'), Some(1));
    assert_eq!(rfind(&s, ':'), Some(3));
    assert_eq!(find(&s, '='), None);
    assert_eq!(rfind(&s, '='), None);
    assert_eq!(find(&chars(""), ':'), None);
    assert_eq!(rfind(&chars(":"), ':'), Some(0));
}

#[test]
fn find_numeric_gives_the_first_numeral() {
    assert_eq!(find_numeric(&chars("D  42%")), Some(3));
    assert_eq!(find_numeric(&chars("none")), None);
    assert_eq!(find_numeric(&chars("x\u{663}1")), Some(1));
    assert_eq!(find_numeric(&chars("\u{bd}")), Some(0));
}

#[test]
fn trim_takes_white_space_off_both_ends() {
    assert_eq!(trim(&chars("  a b \t\n")), &chars("a b")[..]);
    assert_eq!(trim(&chars("a")), &chars("a")[..]);
    assert_eq!(trim(&chars("   ")), &chars("")[..]);
    assert_eq!(trim(&chars("")), &chars("")[..]);
    assert_eq!(trim(&chars("\u{a0}x\u{3000}")), &chars("x")[..]);
}

#[test]
fn trim_agrees_with_the_standard_trim() {
    for s in ["", " ", "a", " a", "a ", " a b ", "\t\r\n", "\u{2003}q\u{85}", "x\u{200b}"] {
        let got: String = trim(&chars(s)).iter().collect();
        assert_eq!(got, s.trim());
    }
}

#[test]
fn words_are_the_runs_between_white_space() {
    assert_eq!(strings(split_words(&chars("3h 45m"))), vec!["3h", "45m"]);
    assert_eq!(strings(split_words(&chars("  a \t b\nc  "))), vec!["a", "b", "c"]);
    assert_eq!(strings(split_words(&chars(""))), Vec::<String>::new());
    assert_eq!(strings(split_words(&chars(" \t "))), Vec::<String>::new());
    assert_eq!(strings(split_words(&chars("one"))), vec!["one"]);
}

#[test]
fn words_agree_with_the_standard_split() {
    for s in ["", " ", "a", " a  b ", "1 2 3 4 5", "x\u{a0}y\u{2003}z", "\tq\n"] {
        let expected: Vec<String> = s.split_whitespace().map(String::from).collect();
        assert_eq!(strings(split_words(&chars(s))), expected);
    }
}

#[test]
fn split_parts_at_every_separator() {
    assert_eq!(strings(split(&chars("a:b:c"), ':')), vec!["a", "b", "c"]);
    assert_eq!(strings(split(&chars("abc"), ':')), vec!["abc"]);
    assert_eq!(strings(split(&chars(""), ':')), vec![""]);
    assert_eq!(strings(split(&chars(":"), ':')), vec!["", ""]);
    assert_eq!(strings(split(&chars("a::b:"), ':')), vec!["a", "", "b", ""]);
}

#[test]
fn split_agrees_with_the_standard_split() {
    for s in ["", ":", "::", "a", "a:", ":a", "oI:OII:fIII", "x::y"] {
        let expected: Vec<String> = s.split(':').map(String::from).collect();
        assert_eq!(strings(split(&chars(s), ':')), expected);
    }
}

#[test]
fn numbers_are_read_in_decimal() {
    assert_eq!(parse_usize(&chars("0")), Some(0));
    assert_eq!(parse_usize(&chars("42")), Some(42));
    assert_eq!(parse_usize(&chars("+42")), Some(42));
    assert_eq!(parse_usize(&chars("0042")), Some(42));
    assert_eq!(parse_usize(&chars("")), None);
    assert_eq!(parse_usize(&chars("+")), None);
    assert_eq!(parse_usize(&chars("-1")), None);
    assert_eq!(parse_usize(&chars("4 2")), None);
    assert_eq!(parse_usize(&chars("42a")), None);
    assert_eq!(parse_usize(&chars("++1")), None);
    assert_eq!(parse_usize(&chars("\u{663}")), None);
}

#[test]
fn numbers_that_do_not_fit_are_refused() {
    let max = usize::MAX.to_string();
    assert_eq!(parse_usize(&chars(&max)), Some(usize::MAX));
    let mut over = max.clone();
    over.push('0');
    assert_eq!(parse_usize(&chars(&over)), None);
    let next = (usize::MAX as u128 + 1).to_string();
    assert_eq!(parse_usize(&chars(&next)), None);
    let zeros = format!("{}{}", "0".repeat(40), max);
    assert_eq!(parse_usize(&chars(&zeros)), Some(usize::MAX));
}

#[test]
fn numbers_are_written_in_decimal() {
    for n in [0usize, 7, 10, 99, 100, 12345, usize::MAX] {
        let mut out = String::from(">");
        push_decimal(&mut out, n);
        assert_eq!(out, format!(">{}", n));
    }
}

#[test]
fn numbers_are_written_in_hexadecimal() {
    for n in [0usize, 9, 10, 15, 16, 255, 0x2b36, 0x6c71c4, 0xfdf6e3, usize::MAX] {
        let mut out = String::from("#");
        push_hex(&mut out, n);
        assert_eq!(out, format!("#{:x}", n));
    }
}

#[test]
fn numbers_are_padded_with_zeros() {
    for (n, width) in [(0usize, 3usize), (7, 3), (42, 3), (100, 3), (1234, 3), (5, 0), (5, 1), (5, 6)] {
        let mut out = String::from("=");
        push_padded(&mut out, n, width);
        assert_eq!(out, format!("={:0width$}", n, width = width));
    }
}

#[test]
fn white_space_is_what_the_standard_library_calls_so() {
    let mut spaces = 0;
    for code in 0..=0x10ffffu32 {
        if let Some(c) = char::from_u32(code) {
            assert_eq!(is_white_space(c), c.is_whitespace(), "U+{:04X}", code);
            if is_white_space(c) {
                spaces += 1;
            }
        }
    }
    assert_eq!(spaces, 25);
    assert!(is_white_space(' '));
    assert!(is_white_space('\n'));
    assert!(is_white_space('\u{a0}'));
    assert!(!is_white_space('a'));
    assert!(!is_white_space('\u{200b}'));
}

#[test]
fn numerals_are_what_the_standard_library_calls_so() {
    for code in 0..=0x10ffffu32 {
        if let Some(c) = char::from_u32(code) {
            assert_eq!(is_numeric(c), c.is_numeric(), "U+{:04X}", code);
        }
    }
    for c in '0'..='9' {
        assert!(is_numeric(c));
    }
    assert!(is_numeric('\u{663}'));
    assert!(is_numeric('\u{bd}'));
    assert!(!is_numeric('x'));
    assert!(!is_numeric('%'));
    assert!(!is_numeric('\u{e9}'));
}
