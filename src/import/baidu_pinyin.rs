//! The Baidu pinyin text format: `word<TAB>pinyin<TAB>rank` for Chinese
//! words, with apostrophes after syllables, and `word<TAB>rank` for English.
use crate::data::{Code, CodeType};
use crate::error::Error;
use crate::import::{
    apostrophe_syllables, field, import_text_bytes, line_gives, make_entry, parse_rank, rank_of,
    syllables, LineEntry, WordLibraryImport, WordLibraryTextImport,
};
use crate::text::{split_char, split_on, trim, trim_str};
use crate::WordLibrary;
use vstd::prelude::*;

verus! {

/// Importer for the Baidu pinyin text format.
pub struct BaiduPinyinImport;

/// The entry on a line of this format.
pub open spec fn baidu_entry(l: Seq<char>) -> Option<LineEntry> {
    let line = trim(l);
    let parts = split_on(line, '\t');
    if line.len() == 0 || parts.len() < 2 {
        None
    } else if parts.len() == 2 {
        Some((parts[0], rank_of(parts[1]), CodeType::English, Seq::empty()))
    } else {
        Some((parts[0], rank_of(parts[2]), CodeType::Pinyin, apostrophe_syllables(parts[1])))
    }
}

/// Reads one line of this format.
pub fn parse_line(line: &str) -> (r: Result<Option<WordLibrary>, Error>)
    ensures
        line_gives(r, baidu_entry(line@)),
{
    let t = trim_str(line);
    if t.as_str().is_empty() {
        return Ok(None);
    }
    let parts = split_char(t.as_str(), '\t');
    if parts.len() < 2 {
        return Ok(None);
    }
    if parts.len() == 2 {
        let rank = parse_rank(field(&parts, 1));
        return Ok(Some(make_entry(field(&parts, 0), rank, CodeType::English, Code::new())));
    }
    let rank = parse_rank(field(&parts, 2));
    Ok(Some(make_entry(field(&parts, 0), rank, CodeType::Pinyin, syllables(field(&parts, 1)))))
}

impl WordLibraryTextImport for BaiduPinyinImport {
    fn import_line(&self, line: &str) -> (r: Result<Option<WordLibrary>, Error>)
        ensures
            line_gives(r, baidu_entry(line@)),
    {
        parse_line(line)
    }

    fn default_encoding(&self) -> &'static str {
        "utf-16le"
    }
}

impl WordLibraryImport for BaiduPinyinImport {
    fn import_bytes(&self, data: &[u8]) -> (r: Result<Vec<WordLibrary>, Error>) {
        import_text_bytes(self, data)
    }
}

} // verus!
