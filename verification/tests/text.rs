use tedana_core::pattern::parse_decimal_byte;
use tedana_core::text::{
    chars_of, comes_before, contains, ends_with, insert_sorted, matches_at, starts_with, trim,
};

#[test]
fn chars_of_lists_characters() {
    assert_eq!(chars_of("aé✓"), vec!['a', 'é', '✓']);
    assert!(chars_of("").is_empty());
}

#[test]
fn matches_at_compares_in_place() {
    let text = chars_of("sub-01");
    assert!(matches_at(&text, &chars_of("sub-"), 0));
    assert!(matches_at(&text, &chars_of("01"), 4));
    assert!(!matches_at(&text, &chars_of("01"), 3));
    assert!(matches_at(&text, &chars_of(""), 6));
    assert!(!matches_at(&text, &chars_of(""), 7));
    assert!(!matches_at(&text, &chars_of("1"), 6));
    assert!(!matches_at(&text, &chars_of("sub-01x"), 0));
    assert!(!matches_at(&text, &chars_of("01"), usize::MAX));
}

#[test]
fn starts_with_tests_prefix() {
    assert!(starts_with("sub-01", "sub-"));
    assert!(starts_with("sub-", "sub-"));
    assert!(starts_with("anything", ""));
    assert!(!starts_with("su", "sub-"));
    assert!(!starts_with("xsub-01", "sub-"));
}

#[test]
fn ends_with_tests_suffix() {
    assert!(ends_with("a_bold.nii.gz", "_bold.nii.gz"));
    assert!(ends_with("a_bold.nii", "_bold.nii"));
    assert!(!ends_with("a_bold.nii.gz", "_bold.nii"));
    assert!(!ends_with("nii", "_bold.nii"));
    assert!(ends_with("x", ""));
}

#[test]
fn contains_finds_substring_anywhere() {
    assert!(contains("ERROR: bad", "ERROR:"));
    assert!(contains("some ERROR: bad", "ERROR:"));
    assert!(contains("tail ERROR:", "ERROR:"));
    assert!(!contains("ERROR bad", "ERROR:"));
    assert!(!contains("ERR", "ERROR:"));
    assert!(contains("", ""));
    assert!(contains("abc", ""));
    assert!(contains("ERRERROR:", "ERROR:"));
}

#[test]
fn comes_before_is_the_order_of_strings() {
    let samples = ["", "a", "ab", "abc", "b", "B", "é", "z", "a/b", "a-b", "10", "9"];
    for a in samples {
        for b in samples {
            assert_eq!(comes_before(a, b), a <= b, "{:?} {:?}", a, b);
        }
    }
}

#[test]
fn insert_sorted_keeps_order() {
    let mut texts: Vec<String> = Vec::new();
    for text in ["m", "b", "z", "a", "m", "ab"] {
        insert_sorted(&mut texts, text.to_string());
    }
    assert_eq!(texts, vec!["a", "ab", "b", "m", "m", "z"]);
}

#[test]
fn trim_removes_white_space_at_both_ends() {
    assert_eq!(trim("  24.0.1\n"), "24.0.1");
    assert_eq!(trim("\t a b \r\n"), "a b");
    assert_eq!(trim("\u{2003}wide\u{00a0}"), "wide");
    assert_eq!(trim("none"), "none");
    assert_eq!(trim("   "), "");
    assert_eq!(trim(""), "");
}

#[test]
fn parse_decimal_byte_reads_numbers_below_256() {
    assert_eq!(parse_decimal_byte("0"), Some(0));
    assert_eq!(parse_decimal_byte("7"), Some(7));
    assert_eq!(parse_decimal_byte("007"), Some(7));
    assert_eq!(parse_decimal_byte("255"), Some(255));
    assert_eq!(parse_decimal_byte("0000000255"), Some(255));
}

#[test]
fn parse_decimal_byte_rejects_the_rest() {
    assert_eq!(parse_decimal_byte(""), None);
    assert_eq!(parse_decimal_byte("256"), None);
    assert_eq!(parse_decimal_byte("1000"), None);
    assert_eq!(parse_decimal_byte("99999999999999999999"), None);
    assert_eq!(parse_decimal_byte("12a"), None);
    assert_eq!(parse_decimal_byte("a12"), None);
    assert_eq!(parse_decimal_byte("-1"), None);
    assert_eq!(parse_decimal_byte(" 1"), None);
    assert_eq!(parse_decimal_byte("٣"), None);
    assert_eq!(parse_decimal_byte("300x"), None);
}

#[test]
fn white_space_is_what_unicode_says() {
    for code in 0..=0x10FFFFu32 {
        if let Some(c) = char::from_u32(code) {
            assert_eq!(tedana_core::text::char_is_whitespace(c), c.is_whitespace(), "U+{:04X}", code);
        }
    }
}
