use cnpj_sqlite::decimal::{format_u64, parse_u64};
use cnpj_sqlite::text::{
    chars_of, joined, ends_with, find, rfind, slice_of, starts_with, string_of, strip_spaces, trim,
};

fn chars(s: &str) -> Vec<char> {
    s.chars().collect()
}

#[test]
fn strings_and_character_vectors_convert_both_ways() {
    assert_eq!(chars_of("a\u{e9}z"), vec!['a', '\u{e9}', 'z']);
    assert_eq!(chars_of(""), Vec::<char>::new());
    assert_eq!(string_of(&chars("47M")), "47M");
    assert_eq!(string_of(&Vec::new()), "");
    assert_eq!(slice_of(&chars("abcdef"), 2, 4), chars("cd"));
    assert_eq!(joined(&chars("ab"), &chars("cd")), chars("abcd"));
}

#[test]
fn trim_drops_the_white_space_around_and_keeps_it_inside() {
    assert_eq!(trim(&chars("  a b \t\n")), chars("a b"));
    assert_eq!(trim(&chars("\u{a0}\u{3000}x\u{2003}\u{85}")), chars("x"));
    assert_eq!(trim(&chars(" \t ")), chars(""));
    assert_eq!(trim(&chars("")), chars(""));
    assert_eq!(trim(&chars("\u{200b}x")), chars("\u{200b}x"));
}

#[test]
fn trim_agrees_with_the_standard_library() {
    for s in [" a ", "\u{1680}b\u{2028}", "\u{180e}c", "\u{feff}d", "\u{202f}\u{205f}e\u{2029}", "\u{1c}f\u{1f}"] {
        assert_eq!(string_of(&trim(&chars(s))), s.trim());
    }
}

#[test]
fn strip_spaces_drops_only_the_plain_space() {
    assert_eq!(strip_spaces(&chars(" 1 . 5 G ")), chars("1.5G"));
    assert_eq!(strip_spaces(&chars("a\tb")), chars("a\tb"));
}

#[test]
fn prefixes_and_suffixes() {
    assert!(starts_with(&chars("2024-01/"), &chars("20")));
    assert!(!starts_with(&chars("1999/"), &chars("20")));
    assert!(!starts_with(&chars("2"), &chars("20")));
    assert!(starts_with(&chars("x"), &chars("")));
    assert!(ends_with(&chars("a.zip"), &chars(".zip")));
    assert!(!ends_with(&chars("a.zip "), &chars(".zip")));
    assert!(!ends_with(&chars("zip"), &chars(".zip")));
}

#[test]
fn first_and_last_positions() {
    assert_eq!(find(&chars("a/b/c"), '/'), Some(1));
    assert_eq!(rfind(&chars("a/b/c"), '/'), Some(3));
    assert_eq!(find(&chars("abc"), '/'), None);
    assert_eq!(rfind(&chars(""), '/'), None);
}

#[test]
fn numbers_are_read_as_the_standard_library_reads_them() {
    for s in ["0", "7", "+7", "007", "18446744073709551615", "18446744073709551616", "", "+", "-1", "1 ", " 1", "1_000", "12a", "++1", "99999999999999999999999"] {
        assert_eq!(parse_u64(&chars(s)), s.parse::<u64>().ok(), "{:?}", s);
    }
    assert_eq!(parse_u64(&chars("500")), Some(500));
    assert_eq!(parse_u64(&chars("18446744073709551616")), None);
}

#[test]
fn numbers_are_written_without_leading_zeros() {
    assert_eq!(format_u64(0), chars("0"));
    assert_eq!(format_u64(9), chars("9"));
    assert_eq!(format_u64(10), chars("10"));
    assert_eq!(format_u64(1048576), chars("1048576"));
    assert_eq!(format_u64(u64::MAX), chars("18446744073709551615"));
}

#[test]
fn a_number_written_is_read_back() {
    for n in [0u64, 1, 9, 10, 99, 100, 12345, u64::MAX - 1, u64::MAX] {
        assert_eq!(parse_u64(&format_u64(n)), Some(n));
    }
}
