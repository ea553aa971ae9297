use imewlconverter::data::{Code, CodeType, WordLibrary};

#[test]
fn test_code_single() {
    let code = Code::from_single("test".to_string());
    assert_eq!(code.get_single_code(), Some("test"));
}

#[test]
fn test_code_cartesian() {
    let code = Code(vec![
        vec!["a".to_string(), "b".to_string()],
        vec!["c".to_string(), "d".to_string()],
    ]);
    let result = code.cartesian_product();
    assert_eq!(result, vec!["ac", "ad", "bc", "bd"]);
}

#[test]
fn test_code_cartesian_with_separator() {
    let code = Code(vec![
        vec!["ni".to_string(), "nv".to_string()],
        vec!["hao".to_string()],
    ]);
    let result = code.cartesian_product_with_separator("'");
    assert_eq!(result, vec!["ni'hao", "nv'hao"]);
}

#[test]
fn test_word_library() {
    let mut word = WordLibrary::new("你好".to_string());
    word.rank = 1000;
    word.set_code(
        CodeType::Pinyin,
        Code::from_char_list(vec!["ni".to_string(), "hao".to_string()]),
    );

    assert_eq!(word.word, "你好");
    assert_eq!(word.rank, 1000);
    assert_eq!(word.get_pinyin_string("'"), "ni'hao");
}

#[test]
fn cartesian_of_no_positions_is_empty() {
    assert!(Code::new().cartesian_product().is_empty());
    assert!(Code::new().cartesian_product_with_separator("'").is_empty());
}

#[test]
fn cartesian_skips_positions_without_alternatives() {
    let code = Code(vec![vec!["a".to_string()], vec![], vec!["b".to_string(), "c".to_string()]]);
    assert_eq!(code.cartesian_product_with_separator("-"), vec!["a-b", "a-c"]);
}

#[test]
fn separator_not_put_after_empty_prefix() {
    let code = Code(vec![vec!["".to_string()], vec!["x".to_string()]]);
    assert_eq!(code.cartesian_product_with_separator("-"), vec!["x"]);
}

#[test]
fn empty_code_rules() {
    assert!(Code::new().is_empty());
    assert!(Code(vec![vec![], vec![]]).is_empty());
    assert!(!Code::from_single("a".to_string()).is_empty());
    assert_eq!(Code(vec![vec![], vec![]]).len(), 2);
}

#[test]
fn default_codes_pass_over_empty_positions() {
    let code = Code(vec![
        vec!["ni".to_string(), "nv".to_string()],
        vec![],
        vec!["hao".to_string()],
    ]);
    assert_eq!(code.get_default_codes(), vec!["ni", "hao"]);
    assert_eq!(code.to_string_with_separator(" "), "ni hao");
}

#[test]
fn from_multiple_is_one_position() {
    let code = Code::from_multiple(vec!["a".to_string(), "b".to_string()]);
    assert_eq!(code.len(), 1);
    assert_eq!(code.get_single_code(), Some("a"));
}

#[test]
fn pinyin_string_only_for_pinyin_kinds() {
    let mut word = WordLibrary::with_rank("你".to_string(), 3);
    word.set_code(CodeType::Wubi, Code::from_single("wq".to_string()));
    assert_eq!(word.get_pinyin_string("'"), "");
    assert_eq!(word.get_single_code(), Some("wq"));
    assert!(word.has_code());
    assert_eq!(word.len(), 1);
    assert!(!word.is_empty());
    word.set_code(CodeType::TerraPinyin, Code::from_char_list(vec!["ni3".to_string()]));
    assert_eq!(word.get_pinyin_string("'"), "ni3");
}

#[test]
fn a_position_without_alternatives_makes_the_code_empty() {
    let code = Code(vec![vec!["a".to_string()], vec![]]);
    assert!(code.is_empty());
    let mut word = WordLibrary::new("你好".to_string());
    word.set_code(CodeType::Pinyin, code);
    assert!(!word.has_code());
    word.set_code(CodeType::Pinyin, Code::from_char_list(vec!["ni".to_string(), "hao".to_string()]));
    assert!(word.has_code());
}

#[test]
fn code_from_lists() {
    let one: Code = Code::from(vec!["ni".to_string(), "hao".to_string()]);
    assert_eq!(one, Code(vec![vec!["ni".to_string()], vec!["hao".to_string()]]));
    let all: Code = Code::from(vec![vec!["a".to_string(), "b".to_string()]]);
    assert_eq!(all.get_default_codes(), vec!["a"]);
}
