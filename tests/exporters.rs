use imewlconverter::data::{Code, CodeType, WordLibrary};
use imewlconverter::export::qq_pinyin::QQPinyinExport;
use imewlconverter::export::rime::{OperatingSystem, RimeExport};
use imewlconverter::export::WordLibraryExport;

fn entry(word: &str, rank: i32, codes: &[&str]) -> WordLibrary {
    let mut w = WordLibrary::new(word.to_string());
    w.rank = rank;
    w.code_type = CodeType::Pinyin;
    w.codes = Code::from_char_list(codes.iter().map(|c| c.to_string()).collect());
    w
}

#[test]
fn test_export_trait_exists() {
    let exporter = QQPinyinExport::new();
    assert_eq!(exporter.code_type(), CodeType::Pinyin);
}

#[test]
fn test_export_line() {
    let exporter = QQPinyinExport::new();
    let mut word = WordLibrary::new("你好".to_string());
    word.rank = 1000;
    word.code_type = CodeType::Pinyin;
    word.codes = Code::from_char_list(vec!["ni".to_string(), "hao".to_string()]);
    let line = exporter.export_line(&word).unwrap();
    assert_eq!(line, "ni'hao 你好 1000");
}

#[test]
fn test_export_list() {
    let exporter = QQPinyinExport::new();
    let mut word1 = WordLibrary::new("你好".to_string());
    word1.rank = 1000;
    word1.code_type = CodeType::Pinyin;
    word1.codes = Code::from_char_list(vec!["ni".to_string(), "hao".to_string()]);
    let mut word2 = WordLibrary::new("世界".to_string());
    word2.rank = 500;
    word2.code_type = CodeType::Pinyin;
    word2.codes = Code::from_char_list(vec!["shi".to_string(), "jie".to_string()]);
    let result = exporter.export(&vec![word1, word2]).unwrap();
    assert_eq!(result.len(), 1);
    assert!(result[0].contains("ni'hao 你好 1000"));
    assert!(result[0].contains("shi'jie 世界 500, shi'jie 500"));
}

#[test]
fn qq_export_of_whole_list() {
    let exporter = QQPinyinExport::new();
    let list = vec![entry("你好", 1000, &["ni", "hao"]), entry("世界", 500, &["shi", "jie"])];
    let result = exporter.export(&list).unwrap();
    assert_eq!(result, vec!["ni'hao 你好 1000\r\nshi'jie 世界 500, shi'jie 500"]);
    assert_eq!(exporter.export(&vec![]).unwrap(), vec![""]);
}

#[test]
fn qq_export_refuses_other_kinds() {
    let exporter = QQPinyinExport::new();
    let mut w = entry("你", 1, &["wq"]);
    w.code_type = CodeType::Wubi;
    assert!(matches!(
        exporter.export_line(&w),
        Err(imewlconverter::Error::InvalidFormat(_))
    ));
    assert!(exporter.export(&vec![w]).is_err());
}

#[test]
fn test_export_line_pinyin() {
    let exporter = RimeExport::new();
    let mut word = WordLibrary::new("你好".to_string());
    word.rank = 1000;
    word.code_type = CodeType::Pinyin;
    word.codes = Code::from_char_list(vec!["ni".to_string(), "hao".to_string()]);
    let line = exporter.export_line(&word).unwrap();
    assert_eq!(line, "你好\tni hao\t1000");
}

#[test]
fn test_export_line_wubi() {
    let exporter = RimeExport::with_code_type(CodeType::Wubi);
    let mut word = WordLibrary::new("你好".to_string());
    word.rank = 1000;
    word.code_type = CodeType::Wubi;
    word.codes = Code::from_single("vqkb".to_string());
    let line = exporter.export_line(&word).unwrap();
    assert_eq!(line, "你好\tvqkb\t1000");
}

#[test]
fn test_line_endings() {
    assert_eq!(OperatingSystem::Windows.line_ending(), "\r\n");
    assert_eq!(OperatingSystem::MacOS.line_ending(), "\r");
    assert_eq!(OperatingSystem::Linux.line_ending(), "\n");
}

#[test]
fn rime_export_joins_with_system_ending() {
    let exporter = RimeExport::new().with_os(OperatingSystem::Windows);
    let list = vec![entry("你好", 1000, &["ni", "hao"]), WordLibrary::new("空".to_string()), entry("世界", -5, &["shi", "jie"])];
    let result = exporter.export(&list).unwrap();
    assert_eq!(result, vec!["你好\tni hao\t1000\r\n世界\tshi jie\t-5"]);
}
