use imewlconverter::data::CodeType;
use imewlconverter::import::sogou_scel::{ScelInfo, SogouScelImport};
use imewlconverter::import::{decode_with_label, WordLibraryImport};
use imewlconverter::scel::{
    decode_step, DecodeStep, find_dict_start, parse_dict_entry, parse_dictionary, parse_pinyin_table, parse_scel_file,
    parse_scel_info, read_utf16le_string, validate_header, ENTRY_CAP, HEADER_SIZE,
};
use imewlconverter::Error;

const MAGIC: [u8; 12] = [0x40, 0x15, 0x00, 0x00, 0x44, 0x43, 0x53, 0x01, 0x01, 0x00, 0x00, 0x00];

fn header() -> Vec<u8> {
    let mut d = vec![0u8; HEADER_SIZE];
    d[..12].copy_from_slice(&MAGIC);
    d
}

fn put_text(d: &mut [u8], at: usize, text: &str) {
    for (i, unit) in text.encode_utf16().enumerate() {
        d[at + 2 * i..at + 2 * i + 2].copy_from_slice(&unit.to_le_bytes());
    }
}

fn u16s(values: &[u16]) -> Vec<u8> {
    values.iter().flat_map(|v| v.to_le_bytes()).collect()
}

#[test]
fn test_read_utf16le_string() {
    let data = b"T\x00e\x00s\x00t\x00\x00\x00";
    let result = read_utf16le_string(data).unwrap();
    assert_eq!(result, "Test");
}

#[test]
fn utf16_text_stops_at_terminator() {
    let data = b"T\x00e\x00s\x00t\x00\x00\x00X\x00Y\x00";
    assert_eq!(read_utf16le_string(data).unwrap(), "Test");
    assert_eq!(read_utf16le_string(b"").unwrap(), "");
    assert_eq!(read_utf16le_string(b"A\x00B").unwrap(), "A");
}

#[test]
fn test_scel_info_parse() {
    let info = ScelInfo {
        name: "Test".to_string(),
        category: "Test".to_string(),
        description: "Test description".to_string(),
        example: "Test example".to_string(),
        word_count: 1000,
    };
    assert_eq!(info.name, "Test");
}

#[test]
fn test_read_file_utf8() {
    assert_eq!(decode_with_label("utf-8", "你好\n".as_bytes()), "你好\n");
}

#[test]
fn header_accepts_exact_signature() {
    assert!(validate_header(&header()).is_ok());
    let mut longer = header();
    longer.extend_from_slice(&[1, 2, 3]);
    assert!(validate_header(&longer).is_ok());
}

#[test]
fn header_rejects_any_changed_signature_byte() {
    for i in 0..12 {
        let mut d = header();
        d[i] ^= 0x01;
        assert!(matches!(validate_header(&d), Err(Error::FormatMismatch { .. })));
    }
}

#[test]
fn header_rejects_short_buffers() {
    let d = header();
    assert!(matches!(validate_header(&d[..HEADER_SIZE - 1]), Err(Error::FormatMismatch { .. })));
    assert!(matches!(validate_header(&[]), Err(Error::FormatMismatch { .. })));
    assert!(matches!(parse_scel_file(&d[..100]), Err(Error::FormatMismatch { .. })));
}

#[test]
fn metadata_reads_the_header_only() {
    let mut d = header();
    put_text(&mut d, 0x130, "词库");
    put_text(&mut d, 0x338, "类别");
    put_text(&mut d, 0x540, "说明");
    put_text(&mut d, 0xd40, "例子");
    d[0x124..0x128].copy_from_slice(&1234u32.to_le_bytes());
    let info = parse_scel_info(&d).unwrap();
    assert_eq!(info.name, "词库");
    assert_eq!(info.category, "类别");
    assert_eq!(info.description, "说明");
    assert_eq!(info.example, "例子");
    assert_eq!(info.word_count, 1234);
    let mut with_garbage = d.clone();
    with_garbage.extend_from_slice(&[0xff; 64]);
    let again = SogouScelImport::read_info(&with_garbage).unwrap();
    assert_eq!(again.name, info.name);
    assert_eq!(again.word_count, info.word_count);
    assert!(parse_scel_file(&d).is_err());
}

#[test]
fn zero_index_ends_the_table() {
    let mut d = header();
    d.extend(u16s(&[1, 2, 'n' as u16, 'i' as u16]));
    d.extend(u16s(&[0, 1, 'x' as u16]));
    d.extend(u16s(&[2, 3, 'h' as u16, 'a' as u16, 'o' as u16]));
    let table = parse_pinyin_table(&d);
    assert_eq!(table.len(), 1);
    assert_eq!(table[&1], "ni");
}

#[test]
fn truncated_record_keeps_earlier_entries() {
    let mut d = header();
    d.extend(u16s(&[1, 2, 'n' as u16, 'i' as u16]));
    d.extend(u16s(&[5, 0]));
    d.extend(u16s(&[2, 40, 'h' as u16]));
    let table = parse_pinyin_table(&d);
    assert_eq!(table.len(), 2);
    assert_eq!(table[&1], "ni");
    assert_eq!(table[&5], "");
}

#[test]
fn later_record_replaces_earlier_one() {
    let mut d = header();
    d.extend(u16s(&[3, 1, 'a' as u16]));
    d.extend(u16s(&[3, 1, 'e' as u16]));
    assert_eq!(parse_pinyin_table(&d)[&3], "e");
}

#[test]
fn round_trip_of_one_entry() {
    let mut d = header();
    d.extend(u16s(&[1, 2, 'n' as u16, 'i' as u16]));
    let table = parse_pinyin_table(&d);
    let entry = u16s(&[1, 1, 1, 1, 0x4f60, 0]);
    let words = parse_dictionary(&entry, 0, &table);
    assert_eq!(words.len(), 1);
    assert_eq!(words[0].word, "你");
    assert_eq!(words[0].code_type, CodeType::Pinyin);
    assert_eq!(words[0].codes.to_string_with_separator("'"), "ni");
}

#[test]
fn whole_file_is_decoded_from_the_located_section() {
    let mut d = header();
    d.extend(u16s(&[1, 2, 'n' as u16, 'i' as u16]));
    d.extend(u16s(&[2, 3, 'h' as u16, 'a' as u16, 'o' as u16]));
    d.extend(u16s(&[0, 0]));
    let start = d.len();
    d.extend(u16s(&[0, 2, 1, 2]));
    d.extend(u16s(&[1, 2, 1, 2, 2, 0x4f60, 0x597d, 1, 7]));
    assert_eq!(find_dict_start(&d).unwrap(), start);
    let words = SogouScelImport.import_bytes(&d).unwrap();
    assert_eq!(words.len(), 1);
    assert_eq!(words[0].word, "你好");
    assert_eq!(words[0].get_pinyin_string("'"), "ni'hao");
}

#[test]
fn only_the_first_word_of_a_group_is_kept() {
    let table = parse_pinyin_table(&header());
    let entry = u16s(&[2, 0, 1, 0x4f60, 0, 1, 0x59ae, 0]);
    let words = parse_dictionary(&entry, 0, &table);
    assert_eq!(words.len(), 1);
    assert_eq!(words[0].word, "你");
    assert!(words[0].codes.is_empty());
}

#[test]
fn missing_section_is_a_parse_error() {
    let mut d = header();
    d.extend(u16s(&[1, 2, 'n' as u16, 'i' as u16]));
    assert!(matches!(find_dict_start(&d), Err(Error::Parse(_))));
    assert!(matches!(parse_scel_file(&d), Err(Error::Parse(_))));
}

#[test]
fn overlong_group_is_skipped_one_byte() {
    let table = parse_pinyin_table(&header());
    let entry = u16s(&[9, 0, 1, 0x4f60, 0]);
    assert!(parse_dict_entry(&entry, 0, &table).is_none());
    let words = parse_dictionary(&entry, 0, &table);
    assert!(words.len() <= 1);
}

#[test]
fn malformed_bytes_end_decoding() {
    let table = parse_pinyin_table(&header());
    let junk = vec![0xffu8; 4096];
    assert!(parse_dictionary(&junk, 0, &table).is_empty());
}

#[test]
fn decoding_stops_at_the_cap() {
    let table = parse_pinyin_table(&header());
    let one = u16s(&[1, 0, 0, 0]);
    let data: Vec<u8> = one.iter().copied().cycle().take(one.len() * (ENTRY_CAP + 50)).collect();
    let words = parse_dictionary(&data, 0, &table);
    assert_eq!(words.len(), ENTRY_CAP);
}

#[test]
fn resync_policy_steps() {
    assert_eq!(decode_step(100, 10, 0, None), DecodeStep::SkipAndRetry);
    assert_eq!(decode_step(100, 10, 0, Some(18)), DecodeStep::Continue(18));
    assert_eq!(decode_step(100, 99, 0, None), DecodeStep::Abort);
    assert_eq!(decode_step(100, 90, 0, Some(100)), DecodeStep::Abort);
    assert_eq!(decode_step(100, 10, ENTRY_CAP, Some(18)), DecodeStep::Abort);
}
