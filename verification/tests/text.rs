use regex::Regex;
use wavelog_gate::adif::{in_class_char, read_tag, scan_run, CharClass};
use wavelog_gate::text::{
    chars_of, contains_text, folded_between, folded_char, is_decimal_digit_char, is_digit_char,
    is_letter_char, is_whitespace_char, push_decimal, text_between, trim_bounds, trimmed,
};

fn every_char() -> Vec<char> {
    (0u32..=0x10FFFF).filter_map(char::from_u32).collect()
}

#[test]
fn whitespace_is_what_std_calls_whitespace() {
    for c in every_char() {
        assert_eq!(is_whitespace_char(c), c.is_whitespace(), "U+{:04X}", c as u32);
    }
}

#[test]
fn letters_are_what_the_pattern_takes_for_a_letter_in_any_case() {
    let letter = Regex::new("(?i)^[a-z]$").unwrap();
    let mut buf = [0u8; 4];
    let mut letters = 0;
    for c in every_char() {
        let expected = letter.is_match(c.encode_utf8(&mut buf));
        assert_eq!(is_letter_char(c), expected, "U+{:04X}", c as u32);
        if expected {
            letters += 1;
        }
    }
    assert_eq!(letters, 54);
    assert!(is_letter_char('\u{17f}'));
    assert!(is_letter_char('\u{212a}'));
    assert!(!is_letter_char('_'));
    assert!(!is_letter_char('\u{e4}'));
    assert!(!is_letter_char('\u{131}'));
}

#[test]
fn ascii_digits_are_zero_to_nine() {
    for c in every_char() {
        assert_eq!(is_digit_char(c), c.is_ascii_digit(), "U+{:04X}", c as u32);
    }
}

#[test]
fn decimal_digits_are_what_the_pattern_takes_for_a_digit() {
    let digit = Regex::new("^\\d$").unwrap();
    let mut buf = [0u8; 4];
    let mut digits = 0;
    for (i, c) in every_char().into_iter().enumerate() {
        let expected = digit.is_match(c.encode_utf8(&mut buf));
        if expected {
            digits += 1;
        }
        if expected || c.is_ascii() || i % 509 == 0 {
            assert_eq!(is_decimal_digit_char(c), expected, "U+{:04X}", c as u32);
        }
    }
    assert!(digits >= 650, "{}", digits);
    assert!(is_decimal_digit_char('7'));
    assert!(is_decimal_digit_char('\u{664}'));
    assert!(is_decimal_digit_char('\u{ff15}'));
    assert!(!is_decimal_digit_char('\u{b2}'));
    assert!(!is_decimal_digit_char('\u{2167}'));
    assert!(!is_decimal_digit_char('\u{4e03}'));
}

#[test]
fn folded_char_is_the_lower_case_of_the_upper_case_of_a_letter() {
    for c in every_char() {
        let expected = match c {
            '\u{17f}' => 's',
            '\u{212a}' => 'k',
            _ => c.to_ascii_lowercase(),
        };
        assert_eq!(folded_char(c), expected, "U+{:04X}", c as u32);
        if is_letter_char(c) || c == '_' {
            let twice: String = c.to_uppercase().collect::<String>().to_lowercase();
            assert_eq!(folded_char(c).to_string(), twice, "U+{:04X}", c as u32);
        }
    }
    assert_eq!(folded_char('A'), 'a');
    assert_eq!(folded_char('Z'), 'z');
    assert_eq!(folded_char('_'), '_');
    assert_eq!(folded_char('\u{c4}'), '\u{c4}');
}

#[test]
fn chars_of_lists_the_characters() {
    assert_eq!(chars_of(""), Vec::<char>::new());
    assert_eq!(chars_of("a\u{e9}\u{1f4fb}"), vec!['a', '\u{e9}', '\u{1f4fb}']);
}

#[test]
fn text_between_copies_a_range() {
    let chars = chars_of("<CALL:4>W1AW");
    assert_eq!(text_between(&chars, 1, 5), "CALL");
    assert_eq!(text_between(&chars, 8, 12), "W1AW");
    assert_eq!(text_between(&chars, 3, 3), "");
    assert_eq!(folded_between(&chars, 1, 5), "call");
    assert_eq!(folded_between(&chars, 0, 12), "<call:4>w1aw");
    let chars = chars_of("R\u{17f}T_\u{212a}");
    assert_eq!(folded_between(&chars, 0, 5), "rst_k");
}

#[test]
fn trimmed_is_what_std_trims() {
    let samples = [
        "",
        " ",
        "a",
        " a",
        "a ",
        "  a b  ",
        "\t\r\n x \u{b}\u{c}",
        "\u{85}x\u{a0}",
        "\u{1680}\u{2000}\u{200a}x\u{2028}\u{2029}\u{202f}\u{205f}\u{3000}",
        "\u{200b}x\u{200b}",
        " \u{feff} ",
        "\u{1f4fb} ",
    ];
    for s in samples {
        assert_eq!(trimmed(s), s.trim(), "{:?}", s);
    }
}

#[test]
fn trim_bounds_stay_inside_the_range() {
    let chars = chars_of("ab   cd   ef");
    assert_eq!(trim_bounds(&chars, 2, 10), (5, 7));
    assert_eq!(trim_bounds(&chars, 2, 5), (5, 5));
    assert_eq!(trim_bounds(&chars, 0, 12), (0, 12));
    assert_eq!(trim_bounds(&chars, 4, 4), (4, 4));
}

#[test]
fn decimal_notation_of_numbers() {
    for n in [0usize, 1, 9, 10, 11, 99, 100, 101, 4096, 65535, 1234567890, usize::MAX] {
        let mut out = String::from("n=");
        push_decimal(&mut out, n);
        assert_eq!(out, format!("n={}", n));
    }
}

#[test]
fn contains_text_finds_substrings() {
    assert!(contains_text("<html><body>", "html>"));
    assert!(contains_text("</html>", "html>"));
    assert!(contains_text("html>", "html>"));
    assert!(!contains_text("html", "html>"));
    assert!(!contains_text("htm l>", "html>"));
    assert!(!contains_text("", "html>"));
    assert!(contains_text("", ""));
    assert!(contains_text("abc", ""));
    assert!(contains_text("aaab", "aab"));
    assert!(!contains_text("HTML>", "html>"));
    assert!(contains_text("\u{e9}html>\u{e9}", "html>"));
    let samples = ["", "a", "ab", "abab", "ba", "bbb", "aba\u{e9}"];
    for s in samples {
        for p in samples {
            assert_eq!(contains_text(s, p), s.contains(p), "{:?} in {:?}", p, s);
        }
    }
}

#[test]
fn classes_of_tag_characters() {
    assert!(in_class_char(CharClass::Name, 'a'));
    assert!(in_class_char(CharClass::Name, 'Z'));
    assert!(in_class_char(CharClass::Name, '_'));
    assert!(in_class_char(CharClass::Name, '\u{17f}'));
    assert!(in_class_char(CharClass::Name, '\u{212a}'));
    assert!(!in_class_char(CharClass::Name, '\u{e9}'));
    assert!(!in_class_char(CharClass::Name, '1'));
    assert!(!in_class_char(CharClass::Name, ':'));
    assert!(in_class_char(CharClass::Digits, '0'));
    assert!(in_class_char(CharClass::Digits, '9'));
    assert!(in_class_char(CharClass::Digits, '\u{664}'));
    assert!(!in_class_char(CharClass::Digits, '\u{bd}'));
    assert!(!in_class_char(CharClass::Digits, 'a'));
    assert!(in_class_char(CharClass::Letters, 'q'));
    assert!(in_class_char(CharClass::Letters, '\u{212a}'));
    assert!(!in_class_char(CharClass::Letters, '_'));
    assert!(in_class_char(CharClass::Text, '>'));
    assert!(in_class_char(CharClass::Text, '\n'));
    assert!(!in_class_char(CharClass::Text, '<'));
}

#[test]
fn run_ends_where_the_class_ends() {
    let chars = chars_of("<CALL:42:xy>v a<l");
    assert_eq!(scan_run(&chars, CharClass::Name, 1), 5);
    assert_eq!(scan_run(&chars, CharClass::Name, 5), 5);
    assert_eq!(scan_run(&chars, CharClass::Digits, 6), 8);
    assert_eq!(scan_run(&chars, CharClass::Letters, 9), 11);
    assert_eq!(scan_run(&chars, CharClass::Text, 12), 15);
    assert_eq!(scan_run(&chars, CharClass::Text, 16), 17);
    assert_eq!(scan_run(&chars, CharClass::Text, 17), 17);
    assert_eq!(scan_run(&chars, CharClass::Text, 18), 18);
    assert_eq!(scan_run(&chars, CharClass::Name, usize::MAX), usize::MAX);
}

#[test]
fn read_tag_finds_name_and_value() {
    let chars = chars_of("x<CALL:4:S> W1AW <EOR>");
    assert!(read_tag(&chars, 0).is_none());
    let span = read_tag(&chars, 1).unwrap();
    assert_eq!(
        (span.name_start, span.name_end, span.value_start, span.value_end),
        (2, 6, 11, 17)
    );
    assert!(read_tag(&chars, 2).is_none());
    let span = read_tag(&chars, 17).unwrap();
    assert_eq!(
        (span.name_start, span.name_end, span.value_start, span.value_end),
        (18, 21, 22, 22)
    );
    let chars = chars_of("<A");
    assert!(read_tag(&chars, 0).is_none());
    let chars = chars_of("<");
    assert!(read_tag(&chars, 0).is_none());
    let chars = chars_of("<A:1");
    assert!(read_tag(&chars, 0).is_none());
    let chars = chars_of("<A:b>");
    assert!(read_tag(&chars, 0).is_none());
    let chars = chars_of("<A:1:b>");
    assert!(read_tag(&chars, 0).is_some());
    assert!(read_tag(&chars, 1).is_none());
    assert!(read_tag(&chars, 7).is_none());
    assert!(read_tag(&chars, 8).is_none());
    assert!(read_tag(&chars, usize::MAX).is_none());
    let chars = chars_of("<A:1b>");
    assert!(read_tag(&chars, 0).is_none());
}
