use imewlconverter::data::WordLibrary;
use imewlconverter::filter::length::LengthFilter;
use imewlconverter::filter::rank::RankFilter;
use imewlconverter::filter::{FilterConfig, SingleFilter};
use imewlconverter::helpers::pinyin::PinyinHelper;
use imewlconverter::rank::{DefaultRankGenerator, RankGenerator};
use imewlconverter::translate::{ChineseConverter, OpenCCConverter, TranslationType};

#[test]
fn test_filter_config_default() {
    let config = FilterConfig::default();
    assert!(config.keep_number);
    assert!(config.keep_english);
}

#[test]
fn test_length_filter() {
    let filter = LengthFilter::new(2, 4);
    let word1 = WordLibrary::new("你".to_string());
    let word2 = WordLibrary::new("你好".to_string());
    let word3 = WordLibrary::new("你好世界啊".to_string());
    assert!(!filter.is_keep(&word1));
    assert!(filter.is_keep(&word2));
    assert!(!filter.is_keep(&word3));
}

#[test]
fn test_rank_filter() {
    let filter = RankFilter::new(100, 1000);
    let word1 = WordLibrary::with_rank("你好".to_string(), 50);
    let word2 = WordLibrary::with_rank("世界".to_string(), 500);
    let word3 = WordLibrary::with_rank("测试".to_string(), 2000);
    assert!(!filter.is_keep(&word1));
    assert!(filter.is_keep(&word2));
    assert!(!filter.is_keep(&word3));
}

#[test]
fn filter_keeps_order_of_kept_entries() {
    let filter = RankFilter::new(100, 1000);
    let words = vec![
        WordLibrary::with_rank("一".to_string(), 100),
        WordLibrary::with_rank("二".to_string(), 99),
        WordLibrary::with_rank("三".to_string(), 1000),
    ];
    let kept = filter.filter(&words);
    assert_eq!(kept.len(), 2);
    assert_eq!(kept[0].word, "一");
    assert_eq!(kept[1].word, "三");
    let d = LengthFilter::default();
    assert_eq!((d.min_length, d.max_length), (1, 9999));
    let r = RankFilter::default();
    assert_eq!((r.min_rank, r.max_rank), (0, i32::MAX));
}

#[test]
fn test_generator_trait_exists() {
    let generator = DefaultRankGenerator::default();
    assert_eq!(generator.default_rank, 100);
    assert!(!generator.force_use());
}

#[test]
fn test_helper_module_exists() {
    let helper = PinyinHelper::default();
    assert!(!helper.is_polyphonic('长'));
}

#[test]
fn test_pinyin_helper_creation() {
    let helper = PinyinHelper::new();
    assert_eq!(helper.get_default_pinyin('你'), None);
    assert!(helper.get_all_pinyin('你').is_none());
    assert!(helper.validate_pinyin("", &[]));
    assert!(!helper.validate_pinyin("你", &["ni".to_string()]));
}

#[test]
fn test_default_rank_generator() {
    let generator = DefaultRankGenerator::new(500);
    assert_eq!(generator.get_rank("test").unwrap(), 500);
}

#[test]
fn test_generate_rank() {
    let generator = DefaultRankGenerator::new(100);
    let mut word = WordLibrary::new("你好".to_string());
    generator.generate_rank(&mut word).unwrap();
    assert_eq!(word.rank, 100);
}

#[test]
fn generate_rank_keeps_an_existing_rank() {
    let generator = DefaultRankGenerator::new(100);
    let mut word = WordLibrary::with_rank("你好".to_string(), 7);
    generator.generate_rank(&mut word).unwrap();
    assert_eq!(word.rank, 7);
}

#[test]
fn test_translation_type() {
    assert_eq!(TranslationType::Unchanged, TranslationType::Unchanged);
    assert_ne!(
        TranslationType::ToSimplified,
        TranslationType::ToTraditional
    );
}

#[test]
fn test_converter_creation() {
    let converter = OpenCCConverter::new().unwrap();
    let result = converter.to_simplified("测试").unwrap();
    assert_eq!(result, "测试");
    assert_eq!(converter.to_traditional("测试").unwrap(), "测试");
}
