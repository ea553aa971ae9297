use imewlconverter::export::rank_text;
use imewlconverter::import::{decode_with_label, encode_with_label, split_lines};
use imewlconverter::text::{parse_int, split_char, split_whitespace, trim_str};

#[test]
fn trims_unicode_white_space() {
    assert_eq!(trim_str("\u{3000} ab c\t\r\n"), "ab c");
    assert_eq!(trim_str("   "), "");
}

#[test]
fn splits_keep_empty_pieces() {
    assert_eq!(split_char("a,,b,", ','), vec!["a", "", "b", ""]);
    assert_eq!(split_char("", ','), vec![""]);
}

#[test]
fn whitespace_split_drops_empty_runs() {
    assert_eq!(split_whitespace("  a \t b  "), vec!["a", "b"]);
    assert!(split_whitespace(" \t ").is_empty());
}

#[test]
fn integers_are_read_like_std() {
    assert_eq!(parse_int("1000"), Some(1000));
    assert_eq!(parse_int("+5"), Some(5));
    assert_eq!(parse_int("-2147483648"), Some(i32::MIN));
    assert_eq!(parse_int("2147483647"), Some(i32::MAX));
    assert_eq!(parse_int("2147483648"), None);
    assert_eq!(parse_int("99999999999999999999"), None);
    assert_eq!(parse_int(""), None);
    assert_eq!(parse_int("-"), None);
    assert_eq!(parse_int("12a"), None);
    assert_eq!(parse_int(" 1"), None);
}

#[test]
fn ranks_are_written_in_decimal() {
    assert_eq!(rank_text(0), "0");
    assert_eq!(rank_text(1000), "1000");
    assert_eq!(rank_text(-42), "-42");
    assert_eq!(rank_text(i32::MIN), "-2147483648");
}

#[test]
fn lines_drop_carriage_returns_and_final_feed() {
    assert_eq!(split_lines("a\r\nb\nc\n"), vec!["a", "b", "c"]);
    assert_eq!(split_lines("a\n\nb"), vec!["a", "", "b"]);
}

#[test]
fn decoding_follows_the_label() {
    assert_eq!(decode_with_label("gbk", &[0xc4, 0xe3, 0xba, 0xc3]), "你好");
    assert_eq!(decode_with_label("utf-16le", &[0x60, 0x4f, 0x7d, 0x59]), "你好");
    assert_eq!(decode_with_label("no such label", "ab".as_bytes()), "ab");
}

#[test]
fn encoding_follows_the_label() {
    assert_eq!(encode_with_label("gbk", "你好"), vec![0xc4, 0xe3, 0xba, 0xc3]);
    assert_eq!(encode_with_label("utf-8", "ab"), b"ab".to_vec());
}
