//! The Sogou pinyin text format: `'ni'hao word`, each syllable opened by an
//! apostrophe; lines that do not open with one hold no entry.
use crate::data::CodeType;
use crate::error::Error;
use crate::import::{
    apostrophe_syllables, field, import_text_bytes, line_gives, make_entry, syllables, LineEntry,
    WordLibraryImport, WordLibraryTextImport,
};
use crate::text::{split_whitespace, split_words, starts_with_char, trim, trim_str};
use crate::WordLibrary;
use vstd::prelude::*;

verus! {

/// Importer for the Sogou pinyin text format.
pub struct SogouPinyinImport;

/// The entry on a line of this format.
pub open spec fn sogou_entry(l: Seq<char>) -> Option<LineEntry> {
    let line = trim(l);
    let parts = split_words(line);
    if !(line.len() > 0 && line[0] == '\'') || parts.len() < 2 {
        None
    } else {
        Some((parts[1], 1i32, CodeType::Pinyin, apostrophe_syllables(parts[0])))
    }
}

/// Reads one line of this format.
pub fn parse_line(line: &str) -> (r: Result<Option<WordLibrary>, Error>)
    ensures
        line_gives(r, sogou_entry(line@)),
{
    let t = trim_str(line);
    if !starts_with_char(t.as_str(), '\'') {
        return Ok(None);
    }
    let parts = split_whitespace(t.as_str());
    if parts.len() < 2 {
        return Ok(None);
    }
    Ok(Some(make_entry(field(&parts, 1), 1, CodeType::Pinyin, syllables(field(&parts, 0)))))
}

impl WordLibraryTextImport for SogouPinyinImport {
    fn import_line(&self, line: &str) -> (r: Result<Option<WordLibrary>, Error>)
        ensures
            line_gives(r, sogou_entry(line@)),
    {
        parse_line(line)
    }

    fn default_encoding(&self) -> &'static str {
        "gbk"
    }
}

impl WordLibraryImport for SogouPinyinImport {
    fn import_bytes(&self, data: &[u8]) -> (r: Result<Vec<WordLibrary>, Error>) {
        import_text_bytes(self, data)
    }
}

} // verus!
