//! Importers: each turns a file of some format into entries.
use crate::data::{one_per_position, strings_view, Code, CodeType, WordLibrary};
use crate::error::Error;
use crate::text::{parse_int, split_char, int_of};
use vstd::prelude::*;

pub mod baidu_pinyin;
pub mod chinese_pyim;
pub mod fit_input;
pub mod google_pinyin;
pub mod libpinyin;
pub mod ms_pinyin;
pub mod pinyin_jiajia;
pub mod qq_pinyin;
pub mod qq_wubi;
pub mod rime;
pub mod sogou_pinyin;
pub mod sogou_scel;
pub mod wubi;
pub mod ziguang_pinyin;

pub use baidu_pinyin::BaiduPinyinImport;
pub use chinese_pyim::ChinesePyimImport;
pub use fit_input::FitInputImport;
pub use google_pinyin::GooglePinyinImport;
pub use libpinyin::LibpinyinImport;
pub use ms_pinyin::MsPinyinImport;
pub use pinyin_jiajia::PinyinJiajiaImport;
pub use qq_pinyin::QQPinyinImport;
pub use qq_wubi::QQWubiImport;
pub use rime::RimeImport;
pub use sogou_pinyin::SogouPinyinImport;
pub use sogou_scel::SogouScelImport;
pub use wubi::{Wubi86Import, Wubi98Import, WubiNewAgeImport};
pub use ziguang_pinyin::ZiguangPinyinImport;

verus! {

/// Turns the raw bytes of a file into entries.
pub trait WordLibraryImport {
    fn import_bytes(&self, data: &[u8]) -> Result<Vec<WordLibrary>, Error>;
}

/// A line-oriented text format.
pub trait WordLibraryTextImport {
    /// The entry on one line, or `None` for a line that holds none.
    fn import_line(&self, line: &str) -> Result<Option<WordLibrary>, Error>;

    /// The label of the text encoding files of this format use.
    fn default_encoding(&self) -> &'static str;
}

/// An entry read from a line: word, rank, code kind and codes.
pub type LineEntry = (Seq<char>, i32, CodeType, Seq<Seq<Seq<char>>>);

/// What an entry holds, as a line entry.
pub open spec fn entry_of(w: WordLibrary) -> LineEntry {
    (w.word@, w.rank, w.code_type, w.codes@)
}

/// The result of reading a line is the entry `e` describes, or none when
/// `e` is none; reading a line never fails.
pub open spec fn line_gives(r: Result<Option<WordLibrary>, Error>, e: Option<LineEntry>) -> bool {
    match r {
        Ok(Some(w)) => e == Some(entry_of(w)) && !w.is_english,
        Ok(None) => e is None,
        Err(_) => false,
    }
}

/// The rank a field spells, zero when it spells no integer.
pub open spec fn rank_of(s: Seq<char>) -> i32 {
    match int_of(s) {
        Some(v) => v,
        None => 0,
    }
}

/// The rank in field `i` of `parts`, zero when there is no such field.
pub open spec fn rank_at(parts: Seq<Seq<char>>, i: int) -> i32 {
    if i < parts.len() {
        rank_of(parts[i])
    } else {
        0
    }
}

/// Field `i` of `parts`.
pub fn field(parts: &Vec<String>, i: usize) -> (r: &str)
    requires
        i < parts@.len(),
    ensures
        r@ == strings_view(parts@)[i as int],
{
    parts[i].as_str()
}

/// Reads a rank field.
pub fn parse_rank(s: &str) -> (r: i32)
    ensures
        r == rank_of(s@),
{
    match parse_int(s) {
        Some(v) => v,
        None => 0,
    }
}

/// Reads the rank in field `i` of `parts`.
pub fn rank_field(parts: &Vec<String>, i: usize) -> (r: i32)
    ensures
        r == rank_at(strings_view(parts@), i as int),
{
    if i < parts.len() {
        parse_rank(parts[i].as_str())
    } else {
        0
    }
}

/// The non-empty pieces, in order.
pub open spec fn non_empty(s: Seq<Seq<char>>) -> Seq<Seq<char>>
    decreases s.len(),
{
    if s.len() == 0 {
        seq![]
    } else if s.last().len() > 0 {
        non_empty(s.drop_last()).push(s.last())
    } else {
        non_empty(s.drop_last())
    }
}

/// Keeps the non-empty strings, in order.
pub fn drop_empty(v: Vec<String>) -> (r: Vec<String>)
    ensures
        strings_view(r@) == non_empty(strings_view(v@)),
{
    let mut r: Vec<String> = Vec::new();
    let mut i: usize = 0;
    while i < v.len()
        invariant
            i <= v@.len(),
            strings_view(r@) == non_empty(strings_view(v@.subrange(0, i as int))),
        decreases v@.len() - i,
    {
        assert(strings_view(v@.subrange(0, i + 1)).drop_last() =~= strings_view(
            v@.subrange(0, i as int),
        ));
        assert(strings_view(v@.subrange(0, i + 1)).last() == v@[i as int]@);
        if !v[i].as_str().is_empty() {
            let ghost before = r@;
            r.push(v[i].clone());
            assert(strings_view(r@) =~= strings_view(before).push(v@[i as int]@));
        }
        i = i + 1;
    }
    assert(v@.subrange(0, v@.len() as int) =~= v@);
    r
}

/// Pinyin syllables written with apostrophes between them, empty pieces
/// dropped, one syllable per position.
pub open spec fn apostrophe_syllables(s: Seq<char>) -> Seq<Seq<Seq<char>>> {
    one_per_position(non_empty(crate::text::split_on(s, '\'')))
}

/// Codes written with apostrophes between them, empty pieces kept, one code
/// per position.
pub open spec fn apostrophe_codes(s: Seq<char>) -> Seq<Seq<Seq<char>>> {
    one_per_position(crate::text::split_on(s, '\''))
}

/// The syllables of an apostrophe-separated pinyin field.
pub fn syllables(s: &str) -> (r: Code)
    ensures
        r@ == apostrophe_syllables(s@),
{
    Code::from_char_list(drop_empty(split_char(s, '\'')))
}

/// The codes of an apostrophe-separated field, empty pieces kept.
pub fn apostrophe_split(s: &str) -> (r: Code)
    ensures
        r@ == apostrophe_codes(s@),
{
    Code::from_char_list(split_char(s, '\''))
}

/// An entry with the given fields.
pub fn make_entry(word: &str, rank: i32, code_type: CodeType, codes: Code) -> (r: WordLibrary)
    ensures
        entry_of(r) == (word@, rank, code_type, codes@),
        !r.is_english,
{
    let mut w = WordLibrary::new(String::from_str(word));
    w.rank = rank;
    w.code_type = code_type;
    w.codes = codes;
    w
}

/// The text of a file's bytes in the encoding a label names.
pub uninterp spec fn decoded_text(label: Seq<char>, bytes: Seq<u8>) -> Seq<char>;

/// Relies on encoding_rs: `Encoding::for_label` picks the encoding that the
/// label names, UTF-8 where it names none, and `Encoding::decode` turns the
/// bytes into text (a byte-order mark takes precedence; malformed input is
/// replaced). The text depends on the label and the bytes alone.
#[verifier::external_body]
pub fn decode_with_label(label: &str, bytes: &[u8]) -> (r: String)
    ensures
        r@ == decoded_text(label@, bytes@),
{
    let encoding = encoding_rs::Encoding::for_label(label.as_bytes()).unwrap_or(encoding_rs::UTF_8);
    encoding.decode(bytes).0.into_owned()
}

/// The bytes of a text in the encoding a label names.
pub uninterp spec fn encoded_text(label: Seq<char>, text: Seq<char>) -> Seq<u8>;

/// Relies on encoding_rs: `Encoding::for_label` picks the encoding that the
/// label names, UTF-8 where it names none, and `Encoding::encode` turns the
/// text into bytes (the UTF-16 encodings write UTF-8, as the WHATWG standard
/// that encoding_rs follows has it). The bytes depend on the label and the
/// text alone.
#[verifier::external_body]
pub fn encode_with_label(label: &str, text: &str) -> (r: Vec<u8>)
    ensures
        r@ == encoded_text(label@, text@),
{
    let encoding = encoding_rs::Encoding::for_label(label.as_bytes()).unwrap_or(encoding_rs::UTF_8);
    encoding.encode(text).0.into_owned()
}

/// The lines of a text: the pieces between line feeds, a carriage return
/// before the feed removed, and no empty piece after a final feed.
pub open spec fn lines_of(s: Seq<char>) -> Seq<Seq<char>> {
    let pieces = crate::text::split_on(s, '\n');
    let kept = if pieces.last().len() == 0 {
        pieces.drop_last()
    } else {
        pieces
    };
    kept.map_values(|p: Seq<char>| strip_cr(p))
}

/// A line without its trailing carriage return.
pub open spec fn strip_cr(p: Seq<char>) -> Seq<char> {
    if p.len() > 0 && p.last() == '\r' {
        p.drop_last()
    } else {
        p
    }
}

/// Splits a text into lines.
pub fn split_lines(s: &str) -> (r: Vec<String>)
    ensures
        strings_view(r@) == lines_of(s@),
{
    let pieces = split_char(s, '\n');
    let ghost pv = strings_view(pieces@);
    let mut n = pieces.len();
    assert(pv.len() > 0);
    if pieces[n - 1].as_str().is_empty() {
        n = n - 1;
    }
    let ghost kept = if pv.last().len() == 0 {
        pv.drop_last()
    } else {
        pv
    };
    let mut r: Vec<String> = Vec::new();
    let mut i: usize = 0;
    while i < n
        invariant
            pv == strings_view(pieces@),
            kept.len() == n,
            n <= pieces@.len(),
            forall|j: int| 0 <= j < n ==> kept[j] == pv[j],
            i <= n,
            strings_view(r@) == kept.subrange(0, i as int).map_values(|p: Seq<char>| strip_cr(p)),
        decreases n - i,
    {
        let p = pieces[i].as_str();
        let len = p.unicode_len();
        let line = if len > 0 && p.get_char(len - 1) == '\r' {
            crate::text::substring(p, 0, len - 1)
        } else {
            String::from_str(p)
        };
        proof {
            if len > 0 && p@[len - 1] == '\r' {
                assert(line@ =~= p@.drop_last());
            }
        }
        assert(p@ == kept[i as int]);
        assert(line@ == strip_cr(kept[i as int]));
        let ghost before = r@;
        r.push(line);
        assert(strings_view(r@) =~= strings_view(before).push(strip_cr(kept[i as int])));
        assert(kept.subrange(0, i + 1).map_values(|p: Seq<char>| strip_cr(p)) =~= kept.subrange(
            0,
            i as int,
        ).map_values(|p: Seq<char>| strip_cr(p)).push(strip_cr(kept[i as int])));
        i = i + 1;
    }
    assert(kept.subrange(0, n as int) =~= kept);
    r
}

/// Reads every line of a text with a line format, keeping the entries.
pub fn import_text<T: WordLibraryTextImport>(importer: &T, text: &str) -> (r: Result<
    Vec<WordLibrary>,
    Error,
>) {
    let lines = split_lines(text);
    let mut result: Vec<WordLibrary> = Vec::new();
    let mut i: usize = 0;
    while i < lines.len()
        decreases lines@.len() - i,
    {
        match importer.import_line(lines[i].as_str())? {
            Some(w) => result.push(w),
            None => {},
        }
        i = i + 1;
    }
    Ok(result)
}

/// Decodes the bytes of a file of a line format and reads every line.
pub fn import_text_bytes<T: WordLibraryTextImport>(importer: &T, data: &[u8]) -> (r: Result<
    Vec<WordLibrary>,
    Error,
>) {
    let text = decode_with_label(importer.default_encoding(), data);
    import_text(importer, text.as_str())
}

} // verus!
