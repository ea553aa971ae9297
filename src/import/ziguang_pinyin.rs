//! The Ziguang pinyin text format: `pinyin=word rank` or `pinyin word rank`,
//! syllables joined by apostrophes.
use crate::data::CodeType;
use crate::error::Error;
use crate::import::{
    apostrophe_codes, apostrophe_split, field, import_text_bytes, line_gives, make_entry, rank_at,
    rank_field, LineEntry, WordLibraryImport, WordLibraryTextImport,
};
use crate::text::{
    contains_char, split_char, split_on, split_whitespace, split_words, starts_with_char, trim,
    trim_str,
};
use crate::WordLibrary;
use vstd::prelude::*;

verus! {

/// Importer for the Ziguang pinyin text format.
pub struct ZiguangPinyinImport;

impl ZiguangPinyinImport {
    pub fn new() -> (r: ZiguangPinyinImport) {
        ZiguangPinyinImport
    }
}

/// The code, word and rank on a line of this format.
pub open spec fn ziguang_fields(line: Seq<char>) -> Option<(Seq<char>, Seq<char>, i32)> {
    let parts = split_words(line);
    if line.contains('=') {
        if parts.len() < 1 {
            None
        } else {
            let cw = split_on(parts[0], '=');
            if cw.len() != 2 {
                None
            } else {
                Some((cw[0], cw[1], rank_at(parts, 1)))
            }
        }
    } else if parts.len() < 2 {
        None
    } else {
        Some((parts[0], parts[1], rank_at(parts, 2)))
    }
}

/// The entry on a line of this format.
pub open spec fn ziguang_entry(l: Seq<char>) -> Option<LineEntry> {
    let line = trim(l);
    if line.len() == 0 || line[0] == '#' {
        None
    } else {
        match ziguang_fields(line) {
            None => None,
            Some(f) => Some((f.1, f.2, CodeType::Pinyin, apostrophe_codes(f.0))),
        }
    }
}

/// Reads one line of this format.
pub fn parse_line(line: &str) -> (r: Result<Option<WordLibrary>, Error>)
    ensures
        line_gives(r, ziguang_entry(line@)),
{
    let t = trim_str(line);
    let s = t.as_str();
    if s.is_empty() || starts_with_char(s, '#') {
        return Ok(None);
    }
    let parts = split_whitespace(s);
    if contains_char(s, '=') {
        if parts.len() < 1 {
            return Ok(None);
        }
        let cw = split_char(field(&parts, 0), '=');
        if cw.len() != 2 {
            return Ok(None);
        }
        let rank = rank_field(&parts, 1);
        Ok(Some(make_entry(field(&cw, 1), rank, CodeType::Pinyin, apostrophe_split(field(&cw, 0)))))
    } else {
        if parts.len() < 2 {
            return Ok(None);
        }
        let rank = rank_field(&parts, 2);
        Ok(Some(make_entry(field(&parts, 1), rank, CodeType::Pinyin, apostrophe_split(field(&parts, 0)))))
    }
}

impl WordLibraryTextImport for ZiguangPinyinImport {
    fn import_line(&self, line: &str) -> (r: Result<Option<WordLibrary>, Error>)
        ensures
            line_gives(r, ziguang_entry(line@)),
    {
        parse_line(line)
    }

    fn default_encoding(&self) -> &'static str {
        "gbk"
    }
}

impl WordLibraryImport for ZiguangPinyinImport {
    fn import_bytes(&self, data: &[u8]) -> (r: Result<Vec<WordLibrary>, Error>) {
        import_text_bytes(self, data)
    }
}

} // verus!
