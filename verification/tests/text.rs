use raid_roster::labels::{active_sp, class_part, compose_label};
use raid_roster::text::{
    ascii_lowercase, ascii_uppercase, char_is_space, chars_of, eq_ignore_ascii_case,
    push_decimal, push_signed_decimal, split_two_words, to_ascii_lower, to_ascii_upper, trim,
};

#[test]
fn decimal_digits() {
    let mut s = String::from("n=");
    push_decimal(&mut s, 0);
    push_decimal(&mut s, 9);
    push_decimal(&mut s, 10);
    push_decimal(&mut s, 1005);
    assert_eq!(s, "n=09101005");
    let mut s = String::new();
    push_decimal(&mut s, u64::MAX);
    assert_eq!(s, "18446744073709551615");
    let mut s = String::new();
    push_signed_decimal(&mut s, -1);
    push_signed_decimal(&mut s, 20);
    push_signed_decimal(&mut s, i64::MIN);
    assert_eq!(s, "-120-9223372036854775808");
}

#[test]
fn texts_are_made_of_characters() {
    assert_eq!(chars_of("a\u{17c}b"), vec!['a', '\u{17c}', 'b']);
    assert_eq!(chars_of(""), Vec::<char>::new());
}

#[test]
fn white_space_is_that_of_unicode() {
    for c in [' ', '\t', '\n', '\u{b}', '\u{c}', '\r', '\u{85}', '\u{a0}', '\u{1680}', '\u{2000}', '\u{200a}', '\u{2028}', '\u{2029}', '\u{202f}', '\u{205f}', '\u{3000}'] {
        assert!(char_is_space(c));
        assert!(c.is_whitespace());
    }
    for c in ['a', '0', '_', '\u{200b}', '\u{8}', '\u{e}', '\u{180e}', '\u{feff}'] {
        assert!(!char_is_space(c));
        assert!(!c.is_whitespace());
    }
}

#[test]
fn trimming_takes_white_space_from_both_ends() {
    assert_eq!(trim("  a b \t\n"), "a b");
    assert_eq!(trim("ab"), "ab");
    assert_eq!(trim(" \u{3000} "), "");
    assert_eq!(trim(""), "");
    assert_eq!(trim("\u{a0}x"), "x");
}

#[test]
fn two_words_are_split() {
    assert_eq!(split_two_words("20:30 2025-01-31"), Some((String::from("20:30"), String::from("2025-01-31"))));
    assert_eq!(split_two_words("  a \t b\n"), Some((String::from("a"), String::from("b"))));
    assert_eq!(split_two_words("one"), None);
    assert_eq!(split_two_words("a b c"), None);
    assert_eq!(split_two_words(""), None);
    assert_eq!(split_two_words("   "), None);
}

#[test]
fn case_of_ascii_letters() {
    assert_eq!(to_ascii_lower('Q'), 'q');
    assert_eq!(to_ascii_lower('q'), 'q');
    assert_eq!(to_ascii_lower('\u{c9}'), '\u{c9}');
    assert_eq!(to_ascii_upper('z'), 'Z');
    assert_eq!(to_ascii_upper('['), '[');
    assert_eq!(ascii_uppercase("sp10 \u{e9}x"), "SP10 \u{e9}X");
    assert_eq!(ascii_lowercase("MsW-\u{141}"), "msw-\u{141}");
    assert!(eq_ignore_ascii_case("Reserve", "rESERVE"));
    assert!(eq_ignore_ascii_case("", ""));
    assert!(!eq_ignore_ascii_case("reserve", "reserved"));
    assert!(!eq_ignore_ascii_case("\u{e9}", "\u{c9}"));
    assert!(!eq_ignore_ascii_case("a@", "a`"));
}

#[test]
fn labels_have_a_class_and_a_specialist() {
    assert_eq!(class_part("MSW / SP4"), "MSW");
    assert_eq!(class_part("  Mage/SP1/x"), "Mage");
    assert_eq!(class_part("Archer"), "Archer");
    assert_eq!(class_part(""), "");
    assert_eq!(active_sp("MSW / SP4"), Some(String::from("SP4")));
    assert_eq!(active_sp("a/ b /c"), Some(String::from("b")));
    assert_eq!(active_sp("MSW /"), Some(String::new()));
    assert_eq!(active_sp("MSW"), None);
    assert_eq!(compose_label("MSW", "SP4"), "MSW / SP4");
    assert_eq!(compose_label("", ""), " / ");
}
