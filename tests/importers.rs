use imewlconverter::data::CodeType;
use imewlconverter::import::{
    BaiduPinyinImport, ChinesePyimImport, FitInputImport, GooglePinyinImport, LibpinyinImport,
    MsPinyinImport, PinyinJiajiaImport, QQPinyinImport, QQWubiImport, RimeImport,
    SogouPinyinImport, Wubi86Import, Wubi98Import, WordLibraryImport, WordLibraryTextImport,
    ZiguangPinyinImport,
};

#[test]
fn test_import_chinese_word() {
    let importer = BaiduPinyinImport;
    let result = importer.import_line("你好\tni'hao'\t1000").unwrap();
    assert!(result.is_some());
    let wl = result.unwrap();
    assert_eq!(wl.word, "你好");
    assert_eq!(wl.get_pinyin_string("'"), "ni'hao");
    assert_eq!(wl.rank, 1000);
    assert_eq!(wl.code_type, CodeType::Pinyin);
}

#[test]
fn test_import_english_word() {
    let importer = BaiduPinyinImport;
    let result = importer.import_line("hello\t500").unwrap();
    assert!(result.is_some());
    let wl = result.unwrap();
    assert_eq!(wl.word, "hello");
    assert_eq!(wl.rank, 500);
    assert_eq!(wl.code_type, CodeType::English);
}

#[test]
fn baidu_pinyin_test_import_line_complex() {
    let importer = BaiduPinyinImport;
    let result = importer
        .import_line("中华人民共和国\tzhong'hua'ren'min'gong'he'guo'\t5000")
        .unwrap();
    assert!(result.is_some());
    let wl = result.unwrap();
    assert_eq!(wl.word, "中华人民共和国");
    assert_eq!(wl.rank, 5000);
    assert_eq!(wl.codes.0.len(), 7);
}

#[test]
fn chinese_pyim_test_import_line() {
    let importer = ChinesePyimImport::new();
    let result = importer.import_line("ni'hao 你好").unwrap();
    assert!(result.is_some());
    let word = result.unwrap();
    assert_eq!(word.word, "你好");
    assert_eq!(word.get_pinyin_string("'"), "ni'hao");
}

#[test]
fn chinese_pyim_ranks_every_word_of_a_line() {
    let importer = ChinesePyimImport::new();
    let words = importer.import_bytes("ni'hao 你好 拟好\n; note\n".as_bytes()).unwrap();
    assert_eq!(words.len(), 2);
    assert_eq!(words[0].word, "你好");
    assert_eq!(words[0].rank, 3);
    assert_eq!(words[1].word, "拟好");
    assert_eq!(words[1].rank, 2);
}

#[test]
fn fit_input_test_import_line() {
    let importer = FitInputImport::new();
    let result = importer.import_line("你好,ni'hao,1000").unwrap();
    assert!(result.is_some());
    let word = result.unwrap();
    assert_eq!(word.word, "你好");
    assert_eq!(word.rank, 1000);
    assert_eq!(word.get_pinyin_string("'"), "ni'hao");
}

#[test]
fn google_pinyin_test_import_line() {
    let importer = GooglePinyinImport;
    let result = importer.import_line("你好\t1000\tni hao").unwrap();
    assert!(result.is_some());
    let wl = result.unwrap();
    assert_eq!(wl.word, "你好");
    assert_eq!(wl.get_pinyin_string(" "), "ni hao");
    assert_eq!(wl.rank, 1000);
}

#[test]
fn google_pinyin_test_import_line_complex() {
    let importer = GooglePinyinImport;
    let result = importer
        .import_line("中华人民共和国\t5000\tzhong hua ren min gong he guo")
        .unwrap();
    assert!(result.is_some());
    let wl = result.unwrap();
    assert_eq!(wl.word, "中华人民共和国");
    assert_eq!(wl.rank, 5000);
    assert_eq!(wl.codes.0.len(), 7);
}

#[test]
fn test_empty_line() {
    let importer = GooglePinyinImport;
    let result = importer.import_line("").unwrap();
    assert!(result.is_none());
}

#[test]
fn libpinyin_test_import_line() {
    let importer = LibpinyinImport::new();
    let result = importer.import_line("你好 1000 ni hao").unwrap();
    assert!(result.is_some());
    let word = result.unwrap();
    assert_eq!(word.word, "你好");
    assert_eq!(word.rank, 1000);
    assert_eq!(word.get_pinyin_string(" "), "ni hao");
}

#[test]
fn test_import_line_multi_char() {
    let importer = LibpinyinImport::new();
    let result = importer
        .import_line("中华人民共和国 500 zhong hua ren min gong he guo")
        .unwrap();
    assert!(result.is_some());
    let word = result.unwrap();
    assert_eq!(word.word, "中华人民共和国");
    assert_eq!(word.rank, 500);
}

#[test]
fn ms_pinyin_test_import_line() {
    let importer = MsPinyinImport::new();
    let result = importer.import_line("ni'hao 1000 你好").unwrap();
    assert!(result.is_some());
    let word = result.unwrap();
    assert_eq!(word.word, "你好");
    assert_eq!(word.rank, 1000);
    assert_eq!(word.get_pinyin_string("'"), "ni'hao");
}

#[test]
fn test_import_line_tab_separated() {
    let importer = MsPinyinImport::new();
    let result = importer.import_line("zhong'guo\t500\t中国").unwrap();
    assert!(result.is_some());
    let word = result.unwrap();
    assert_eq!(word.word, "中国");
    assert_eq!(word.rank, 500);
}

#[test]
fn test_skip_comments() {
    let importer = MsPinyinImport::new();
    assert!(importer.import_line("# comment").unwrap().is_none());
    assert!(importer.import_line("// comment").unwrap().is_none());
    assert!(importer.import_line("").unwrap().is_none());
}

#[test]
fn pinyin_jiajia_test_import_line() {
    let importer = PinyinJiajiaImport::new();
    let result = importer.import_line("你好\tni'hao\t1000").unwrap();
    assert!(result.is_some());
    let word = result.unwrap();
    assert_eq!(word.word, "你好");
    assert_eq!(word.rank, 1000);
    assert_eq!(word.get_pinyin_string("'"), "ni'hao");
}

#[test]
fn test_import_line_simple() {
    let importer = QQPinyinImport::new();
    let result = importer.import_line("ni'hao 你好 1000").unwrap();
    assert!(result.is_some());
    let word = result.unwrap();
    assert_eq!(word.word, "你好");
    assert_eq!(word.rank, 1000);
    assert_eq!(word.get_pinyin_string("'"), "ni'hao");
}

#[test]
fn test_import_line_with_comma() {
    let importer = QQPinyinImport::new();
    let result = importer
        .import_line("ni'hao 你好 1000, additional")
        .unwrap();
    assert!(result.is_some());
    let word = result.unwrap();
    assert_eq!(word.word, "你好");
    assert_eq!(word.rank, 1000);
}

#[test]
fn qq_pinyin_test_import_line_no_rank() {
    let importer = QQPinyinImport::new();
    let result = importer.import_line("ni'hao 你好").unwrap();
    assert!(result.is_some());
    let word = result.unwrap();
    assert_eq!(word.word, "你好");
    assert_eq!(word.rank, 0);
}

#[test]
fn qq_pinyin_reads_a_utf16_file() {
    let text = "ni'hao 你好 1000\r\nshi'jie 世界 500\r\n";
    let mut bytes: Vec<u8> = Vec::new();
    for unit in text.encode_utf16() {
        bytes.extend_from_slice(&unit.to_le_bytes());
    }
    let words = QQPinyinImport::new().import_bytes(&bytes).unwrap();
    assert_eq!(words.len(), 2);
    assert_eq!(words[1].word, "世界");
    assert_eq!(words[1].rank, 500);
}

#[test]
fn qq_wubi_test_import_line() {
    let importer = QQWubiImport::new();
    let result = importer.import_line("vqkb 你好 1000").unwrap();
    assert!(result.is_some());
    let word = result.unwrap();
    assert_eq!(word.word, "你好");
    assert_eq!(word.rank, 1000);
    assert_eq!(word.get_single_code(), Some("vqkb"));
}

#[test]
fn test_import_line_pinyin() {
    let importer = RimeImport::new();
    let result = importer.import_line("你好\tni hao\t1000").unwrap();
    assert!(result.is_some());
    let word = result.unwrap();
    assert_eq!(word.word, "你好");
    assert_eq!(word.rank, 1000);
    assert_eq!(word.get_pinyin_string(" "), "ni hao");
}

#[test]
fn test_import_line_wubi() {
    let importer = RimeImport::with_code_type(CodeType::Wubi);
    let result = importer.import_line("你好\tvqkb\t1000").unwrap();
    assert!(result.is_some());
    let word = result.unwrap();
    assert_eq!(word.word, "你好");
    assert_eq!(word.rank, 1000);
    assert_eq!(word.get_single_code(), Some("vqkb"));
}

#[test]
fn rime_test_import_line_no_rank() {
    let importer = RimeImport::new();
    let result = importer.import_line("你好\tni hao").unwrap();
    assert!(result.is_some());
    let word = result.unwrap();
    assert_eq!(word.rank, 0);
}

#[test]
fn sogou_pinyin_test_import_line() {
    let importer = SogouPinyinImport;
    let result = importer.import_line("'ni'hao 你好").unwrap();
    assert!(result.is_some());
    let wl = result.unwrap();
    assert_eq!(wl.word, "你好");
    assert_eq!(wl.get_pinyin_string("'"), "ni'hao");
    assert_eq!(wl.rank, 1);
}

#[test]
fn sogou_pinyin_test_import_line_complex() {
    let importer = SogouPinyinImport;
    let result = importer
        .import_line("'zhong'hua'ren'min'gong'he'guo 中华人民共和国")
        .unwrap();
    assert!(result.is_some());
    let wl = result.unwrap();
    assert_eq!(wl.word, "中华人民共和国");
    assert_eq!(wl.codes.0.len(), 7);
}

#[test]
fn test_import_line_skip_non_dict() {
    let importer = SogouPinyinImport;
    let result = importer.import_line("# Comment line").unwrap();
    assert!(result.is_none());
    let result = importer.import_line("").unwrap();
    assert!(result.is_none());
}

#[test]
fn test_wubi86_import() {
    let importer = Wubi86Import;
    let result = importer.import_line("你\twq").unwrap();
    assert!(result.is_some());
    let wl = result.unwrap();
    assert_eq!(wl.word, "你");
    assert_eq!(wl.code_type, CodeType::Wubi);
}

#[test]
fn test_wubi98_import() {
    let importer = Wubi98Import;
    let result = importer.import_line("好\tvb").unwrap();
    assert!(result.is_some());
    let wl = result.unwrap();
    assert_eq!(wl.word, "好");
    assert_eq!(wl.code_type, CodeType::Wubi98);
}

#[test]
fn test_wubi_with_rank() {
    let importer = Wubi86Import;
    let result = importer.import_line("你好\twqvb\t1000").unwrap();
    assert!(result.is_some());
    let wl = result.unwrap();
    assert_eq!(wl.word, "你好");
    assert_eq!(wl.rank, 1000);
}

#[test]
fn test_import_line_equals_format() {
    let importer = ZiguangPinyinImport::new();
    let result = importer.import_line("ni'hao=你好 1000").unwrap();
    assert!(result.is_some());
    let word = result.unwrap();
    assert_eq!(word.word, "你好");
    assert_eq!(word.rank, 1000);
    assert_eq!(word.get_pinyin_string("'"), "ni'hao");
}

#[test]
fn test_import_line_space_format() {
    let importer = ZiguangPinyinImport::new();
    let result = importer.import_line("zhong'guo 中国 500").unwrap();
    assert!(result.is_some());
    let word = result.unwrap();
    assert_eq!(word.word, "中国");
    assert_eq!(word.rank, 500);
}

#[test]
fn ziguang_pinyin_test_import_line_no_rank() {
    let importer = ZiguangPinyinImport::new();
    let result = importer.import_line("ni'hao=你好").unwrap();
    assert!(result.is_some());
    let word = result.unwrap();
    assert_eq!(word.rank, 0);
}

#[test]
fn chinese_pyim_text_passes_over_comments_and_short_lines() {
    let words = imewlconverter::import::chinese_pyim::import_pyim_text("# c\nni\nhao 好 号\r\n");
    assert_eq!(words.len(), 2);
    assert_eq!(words[0].word, "好");
    assert_eq!(words[0].rank, 3);
    assert_eq!(words[1].word, "号");
    assert_eq!(words[1].get_pinyin_string("'"), "hao");
}
