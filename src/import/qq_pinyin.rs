//! The QQ pinyin text format: `pinyin word rank`, syllables joined by
//! apostrophes; anything after a comma is ignored.
use crate::data::{strings_view, CodeType};
use crate::error::Error;
use crate::import::{
    apostrophe_syllables, line_gives, make_entry, rank_at, rank_field, syllables, LineEntry,
    WordLibraryImport, WordLibraryTextImport, import_text_bytes,
};
use crate::text::{split_char, split_on, split_whitespace, split_words, trim, trim_str};
use crate::WordLibrary;
use vstd::prelude::*;

verus! {

/// Importer for the QQ pinyin text format.
pub struct QQPinyinImport;

impl QQPinyinImport {
    pub fn new() -> (r: QQPinyinImport) {
        QQPinyinImport
    }
}

/// The entry on a line of this format.
pub open spec fn qq_pinyin_entry(l: Seq<char>) -> Option<LineEntry> {
    let line = trim(l);
    if line.len() == 0 {
        None
    } else {
        let parts = split_words(split_on(line, ',')[0]);
        if parts.len() < 2 {
            None
        } else {
            Some((parts[1], rank_at(parts, 2), CodeType::Pinyin, apostrophe_syllables(parts[0])))
        }
    }
}

/// Reads one line of this format.
pub fn parse_line(line: &str) -> (r: Result<Option<WordLibrary>, Error>)
    ensures
        line_gives(r, qq_pinyin_entry(line@)),
{
    let t = trim_str(line);
    if t.as_str().is_empty() {
        return Ok(None);
    }
    let pieces = split_char(t.as_str(), ',');
    assert(strings_view(pieces@).len() == pieces@.len());
    assert(pieces@[0]@ == split_on(t@, ',')[0]);
    let parts = split_whitespace(pieces[0].as_str());
    assert(strings_view(parts@).len() == parts@.len());
    if parts.len() < 2 {
        return Ok(None);
    }
    assert(parts@[0]@ == strings_view(parts@)[0]);
    assert(parts@[1]@ == strings_view(parts@)[1]);
    let rank = rank_field(&parts, 2);
    Ok(Some(make_entry(parts[1].as_str(), rank, CodeType::Pinyin, syllables(parts[0].as_str()))))
}

impl WordLibraryTextImport for QQPinyinImport {
    fn import_line(&self, line: &str) -> (r: Result<Option<WordLibrary>, Error>)
        ensures
            line_gives(r, qq_pinyin_entry(line@)),
    {
        parse_line(line)
    }

    fn default_encoding(&self) -> &'static str {
        "utf-16le"
    }
}

impl WordLibraryImport for QQPinyinImport {
    fn import_bytes(&self, data: &[u8]) -> (r: Result<Vec<WordLibrary>, Error>) {
        import_text_bytes(self, data)
    }
}

} // verus!
