use aster_drive::numerals::{push_decimal, push_decimal_signed, read_i32, read_unsigned};
use aster_drive::search::{find_text, text_lines, text_split, text_split_once};
use aster_drive::text::{ends_with, eq_ignore_ascii_case, starts_with, to_ascii_lowercase, trim};
use aster_drive::xml_utils::{
    local_name, local_name_eq, local_name_eq_ignore_case, non_empty_owned_text,
};

#[test]
fn local_names_have_no_prefix() {
    assert_eq!(local_name("CORSRule"), "CORSRule");
    assert_eq!(local_name("cos:CORSRule"), "CORSRule");
    assert_eq!(local_name("a:b:c"), "c");
    assert_eq!(local_name("a:"), "");
    assert_eq!(local_name(""), "");
    assert_eq!(local_name("\u{e9}:\u{e8}"), "\u{e8}");
    assert_eq!(local_name(local_name("a:b:c")), "c");
}

#[test]
fn local_names_match_with_or_without_case() {
    assert!(local_name_eq("cos:ID", "ID"));
    assert!(!local_name_eq("cos:ID", "Id"));
    assert!(!local_name_eq("cos:ID", "cos:ID"));
    assert!(local_name_eq_ignore_case("cos:ID", "iD"));
    assert!(!local_name_eq_ignore_case("cos:ID", "IDs"));
    assert!(!local_name_eq_ignore_case("\u{c9}", "\u{e9}"));
}

#[test]
fn owned_text_is_trimmed_and_not_empty() {
    assert_eq!(non_empty_owned_text(Some(" a b ")), Some("a b".to_string()));
    assert_eq!(non_empty_owned_text(Some(" \t\r\n")), None);
    assert_eq!(non_empty_owned_text(Some("")), None);
    assert_eq!(non_empty_owned_text(None), None);
}

#[test]
fn trimming_drops_exactly_white_space() {
    for code in 0..=0x10ffff_u32 {
        if let Some(c) = char::from_u32(code) {
            let text = format!("{c}x{c}");
            assert_eq!(trim(&text), text.trim());
        }
    }
}

#[test]
fn lower_case_is_that_of_ascii() {
    let text = "ABCXYZ[]@`az \u{c9}\u{130}";
    assert_eq!(to_ascii_lowercase(text), text.to_ascii_lowercase());
    assert!(eq_ignore_ascii_case("TRUE", "true"));
    assert!(!eq_ignore_ascii_case("TRUE", "tru"));
}

#[test]
fn prefixes_and_suffixes() {
    assert!(starts_with("video/mp4", "video/"));
    assert!(!starts_with("vid", "video/"));
    assert!(ends_with("issues/421", "/421"));
    assert!(!ends_with("421", "/421"));
    assert!(ends_with("", ""));
}

#[test]
fn numbers_are_written_in_decimal() {
    for n in [0, 7, 10, 99, 100, 12_345, u64::MAX] {
        let mut text = String::from("n=");
        push_decimal(&mut text, n);
        assert_eq!(text, format!("n={n}"));
    }
    for n in [0, -1, 42, i64::MIN, i64::MAX] {
        let mut text = String::new();
        push_decimal_signed(&mut text, n);
        assert_eq!(text, n.to_string());
    }
}

#[test]
fn numbers_are_read_as_the_standard_library_reads_them() {
    for text in [
        "0", "1", "255", "256", "+9", "-9", "+", "-", "", " 1", "1 ", "0x1", "00012", "--1", "++1",
        "2147483647", "2147483648", "-2147483648", "-2147483649", "4294967295", "4294967296",
        "18446744073709551615", "18446744073709551616", "99999999999999999999999", "-0", "\u{661}",
    ] {
        assert_eq!(
            read_unsigned(text, u8::MAX as u64),
            text.parse::<u8>().ok().map(|n| n as u64)
        );
        assert_eq!(
            read_unsigned(text, u32::MAX as u64),
            text.parse::<u32>().ok().map(|n| n as u64)
        );
        assert_eq!(read_unsigned(text, u64::MAX), text.parse::<u64>().ok());
        assert_eq!(read_i32(text), text.parse::<i32>().ok());
    }
}

#[test]
fn lines_are_those_of_the_standard_library() {
    for text in ["", "a", "a\n", "a\r\nb", "a\r", "\n\n", "a\r\r\nb\r\n", "\r\n"] {
        assert_eq!(text_lines(text), text.lines().collect::<Vec<&str>>());
    }
}

#[test]
fn parts_are_those_of_the_standard_library() {
    for text in ["", "|", "a|b", "a||b|", "abc"] {
        assert_eq!(text_split(text, '|'), text.split('|').collect::<Vec<&str>>());
        assert_eq!(text_split_once(text, "|"), text.split_once('|'));
    }
    assert_eq!(find_text("\u{e9}a pass", " pass"), Some(2));
    assert_eq!(find_text("pas", "pass"), None);
}
