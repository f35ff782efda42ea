//! Runs of characters and trimming.

use android_studio_releases::text::{
    chars_of, digit_number, scan_run, spells, trim_range, CharClass,
};

fn trimmed(text: &str) -> String {
    let chars = chars_of(text);
    let (from, to) = trim_range(&chars, 0, chars.len());
    chars[from..to].iter().collect()
}

#[test]
fn characters_of_a_text() {
    assert_eq!(chars_of("a|ž✓"), vec!['a', '|', 'ž', '✓']);
    assert_eq!(chars_of(""), Vec::<char>::new());
}

#[test]
fn whitespace_is_what_trimming_removes() {
    for code in 0..=0x10FFFFu32 {
        if let Some(c) = char::from_u32(code) {
            assert_eq!(CharClass::Whitespace.contains(c), c.is_whitespace(), "{:x}", code);
        }
    }
}

#[test]
fn digits_and_word_characters_are_ascii() {
    for code in 0..=0x10FFFFu32 {
        if let Some(c) = char::from_u32(code) {
            assert_eq!(CharClass::Digit.contains(c), c.is_ascii_digit(), "{:x}", code);
            assert_eq!(
                CharClass::Word.contains(c),
                c.is_ascii_alphanumeric() || c == '_',
                "{:x}",
                code
            );
            assert_eq!(CharClass::Except('|').contains(c), c != '|');
        }
    }
}

#[test]
fn digit_stands_for_its_number() {
    for (n, digit) in "0123456789".chars().enumerate() {
        assert_eq!(digit_number(digit) as usize, n);
    }
}

#[test]
fn trimming_is_that_of_the_standard_library() {
    for text in ["", " ", "a", " a", "a ", "  a b  ", "\t\n\u{b}\u{c}\r x \u{85}\u{a0}\u{1680}", "\u{2000}y\u{200a}\u{2028}\u{2029}\u{202f}\u{205f}\u{3000}", "\u{200b}z\u{200b}", " \u{feff} "] {
        assert_eq!(trimmed(text), text.trim(), "{:?}", text);
    }
}

#[test]
fn trimming_a_part_stays_inside_it() {
    let chars = chars_of("ab  cd  ef");
    assert_eq!(trim_range(&chars, 2, 8), (4, 6));
    assert_eq!(trim_range(&chars, 2, 4), (4, 4));
    assert_eq!(trim_range(&chars, 3, 3), (3, 3));
    assert_eq!(trim_range(&chars, 0, 10), (0, 10));
}

#[test]
fn runs_end_at_the_first_other_character() {
    let chars = chars_of("2024.21 Canary_7  |x");
    assert_eq!(scan_run(&chars, 0, CharClass::Digit), 4);
    assert_eq!(scan_run(&chars, 4, CharClass::Digit), 4);
    assert_eq!(scan_run(&chars, 5, CharClass::Digit), 7);
    assert_eq!(scan_run(&chars, 8, CharClass::Word), 16);
    assert_eq!(scan_run(&chars, 16, CharClass::Whitespace), 18);
    assert_eq!(scan_run(&chars, 0, CharClass::Except('|')), 18);
    assert_eq!(scan_run(&chars, 19, CharClass::Word), 20);
    assert_eq!(scan_run(&chars, 20, CharClass::Word), 20);
}

#[test]
fn spelling_is_letter_for_letter() {
    let chars = chars_of("xAugust 15");
    assert!(spells(&chars, 1, 7, "August"));
    assert!(!spells(&chars, 1, 7, "august"));
    assert!(!spells(&chars, 1, 6, "August"));
    assert!(!spells(&chars, 0, 7, "August"));
    assert!(spells(&chars, 3, 3, ""));
}
