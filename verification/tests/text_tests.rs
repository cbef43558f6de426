use songcache::text::{
    chars_of, find_char, is_text, lowered, parse_decimal, remove_char, remove_text, split_at_first,
    split_lines, starts_with, string_from_file, string_of, trimmed,
};

fn cs(s: &str) -> Vec<char> {
    s.chars().collect()
}

#[test]
fn decodes_plain_utf8() {
    assert_eq!(string_from_file("name = Foo".as_bytes()), "name = Foo");
}

#[test]
fn decodes_utf8_with_mark() {
    let mut bytes = vec![0xEF, 0xBB, 0xBF];
    bytes.extend_from_slice("héllo".as_bytes());
    assert_eq!(string_from_file(&bytes), "héllo");
}

#[test]
fn decodes_utf16_little_endian() {
    let bytes = [0xFF, 0xFE, b'h', 0, b'i', 0, 0xE9, 0x00];
    assert_eq!(string_from_file(&bytes), "hi\u{e9}");
}

#[test]
fn decodes_utf16_big_endian() {
    let bytes = [0xFE, 0xFF, 0, b'h', 0, b'i', 0x20, 0xAC];
    assert_eq!(string_from_file(&bytes), "hi\u{20ac}");
}

#[test]
fn utf16_drops_a_last_odd_byte() {
    let bytes = [0xFF, 0xFE, b'a', 0, b'b'];
    assert_eq!(string_from_file(&bytes), "a");
}

#[test]
fn utf16_replaces_a_lone_surrogate() {
    let bytes = [0xFF, 0xFE, 0x00, 0xD8, b'a', 0];
    assert_eq!(string_from_file(&bytes), "\u{fffd}a");
}

#[test]
fn short_files_are_utf8() {
    assert_eq!(string_from_file(&[]), "");
    assert_eq!(string_from_file(&[b'a']), "a");
    assert_eq!(string_from_file(&[b'a', b'b']), "ab");
    assert_eq!(string_from_file(&[0xFF, 0xFE]), "\u{fffd}\u{fffd}");
}

#[test]
fn invalid_utf8_is_replaced() {
    assert_eq!(string_from_file(&[b'a', 0xFF, b'b', b'c']), "a\u{fffd}bc");
}

#[test]
fn chars_and_strings_convert_both_ways() {
    let chars = chars_of("añ€😀");
    assert_eq!(chars, vec!['a', 'ñ', '€', '😀']);
    assert_eq!(string_of(&chars), "añ€😀");
    assert_eq!(string_of(&[]), "");
}

#[test]
fn is_text_compares_whole_runs() {
    assert!(is_text(&cs("song"), "song"));
    assert!(!is_text(&cs("songs"), "song"));
    assert!(!is_text(&cs("son"), "song"));
    assert!(is_text(&cs(""), ""));
}

#[test]
fn find_char_gives_first_index_or_length() {
    assert_eq!(find_char(&cs("a=b=c"), '='), 1);
    assert_eq!(find_char(&cs("abc"), '='), 3);
    assert_eq!(find_char(&cs(""), '='), 0);
}

#[test]
fn trimmed_removes_whitespace_at_both_ends() {
    assert_eq!(string_of(&trimmed(&cs("  a b \t\r"))), "a b");
    assert_eq!(string_of(&trimmed(&cs("\u{a0}x\u{3000}"))), "x");
    assert_eq!(string_of(&trimmed(&cs("   "))), "");
    assert_eq!(string_of(&trimmed(&cs(""))), "");
    assert_eq!(string_of(&trimmed(&cs("abc"))), "abc");
}

#[test]
fn split_lines_cuts_at_line_feeds() {
    let rows = split_lines(&cs("a\nb\r\n\nc"));
    let rows: Vec<String> = rows.iter().map(|r| string_of(r)).collect();
    assert_eq!(rows, vec!["a", "b\r", "", "c"]);
    assert_eq!(split_lines(&cs("")).len(), 1);
    assert_eq!(split_lines(&cs("x\n")).len(), 2);
}

#[test]
fn split_at_first_splits_once() {
    let (k, v) = split_at_first(&cs("a = b = c"), '=').unwrap();
    assert_eq!(string_of(&k), "a ");
    assert_eq!(string_of(&v), " b = c");
    assert!(split_at_first(&cs("abc"), '=').is_none());
    let (k, v) = split_at_first(&cs("="), '=').unwrap();
    assert!(k.is_empty() && v.is_empty());
}

#[test]
fn starts_with_checks_the_front() {
    assert!(starts_with(&cs("N 5 0"), "N 5"));
    assert!(starts_with(&cs("N"), "N"));
    assert!(!starts_with(&cs("N"), "N 5"));
    assert!(!starts_with(&cs("E lyric"), "N"));
    assert!(starts_with(&cs("abc"), ""));
}

#[test]
fn lowered_follows_unicode() {
    assert_eq!(string_of(&lowered(&cs("ÀBC Déf"))), "àbc déf");
}

#[test]
fn remove_char_removes_every_occurrence() {
    assert_eq!(string_of(&remove_char(&cs("\"a\"b\"\""), '"')), "ab");
    assert_eq!(string_of(&remove_char(&cs("abc"), '"')), "abc");
}

#[test]
fn remove_text_removes_left_to_right() {
    assert_eq!(string_of(&remove_text(&cs(", 1999"), ", ")), "1999");
    assert_eq!(string_of(&remove_text(&cs("a, b, c"), ", ")), "abc");
    assert_eq!(string_of(&remove_text(&cs(",, "), ", ")), ",");
    assert_eq!(string_of(&remove_text(&cs(","), ", ")), ",");
    assert_eq!(string_of(&remove_text(&cs("aaa"), "aa")), "a");
}

#[test]
fn parse_decimal_reads_signed_numbers() {
    assert_eq!(parse_decimal(&cs("0"), -128, 127), Some(0));
    assert_eq!(parse_decimal(&cs("127"), -128, 127), Some(127));
    assert_eq!(parse_decimal(&cs("-128"), -128, 127), Some(-128));
    assert_eq!(parse_decimal(&cs("+5"), -128, 127), Some(5));
    assert_eq!(parse_decimal(&cs("007"), -128, 127), Some(7));
    assert_eq!(parse_decimal(&cs("-0"), -128, 127), Some(0));
    assert_eq!(parse_decimal(&cs("2147483647"), i32::MIN as i64, i32::MAX as i64), Some(2147483647));
    assert_eq!(
        parse_decimal(&cs("-2147483648"), i32::MIN as i64, i32::MAX as i64),
        Some(-2147483648)
    );
}

#[test]
fn parse_decimal_refuses_what_is_no_number() {
    for bad in ["", "+", "-", " 5", "5 ", "1.5", "0x10", "1_000", "--1", "+-1", "٣"] {
        assert_eq!(parse_decimal(&cs(bad), -128, 127), None, "{:?}", bad);
    }
}

#[test]
fn parse_decimal_refuses_what_is_out_of_range() {
    assert_eq!(parse_decimal(&cs("128"), -128, 127), None);
    assert_eq!(parse_decimal(&cs("-129"), -128, 127), None);
    assert_eq!(parse_decimal(&cs("2147483648"), i32::MIN as i64, i32::MAX as i64), None);
    assert_eq!(parse_decimal(&cs("99999999999999999999999999"), i32::MIN as i64, i32::MAX as i64), None);
    assert_eq!(parse_decimal(&cs("-99999999999999999999999999"), i32::MIN as i64, i32::MAX as i64), None);
}

#[test]
fn parse_decimal_agrees_with_std() {
    for text in ["12", "-12", "+12", "0012", "32767", "32768", "-32768", "-32769", "a", ""] {
        let expected = text.parse::<i16>().ok().map(|v| v as i64);
        assert_eq!(parse_decimal(&cs(text), i16::MIN as i64, i16::MAX as i64), expected);
    }
}
