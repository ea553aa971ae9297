//! The Pinyin Jiajia text format: `word<TAB>pinyin<TAB>rank`, syllables joined
//! by apostrophes.
use crate::data::CodeType;
use crate::error::Error;
use crate::import::{
    apostrophe_codes, apostrophe_split, field, import_text_bytes, line_gives, make_entry, rank_at,
    rank_field, syllables, LineEntry, WordLibraryImport, WordLibraryTextImport,
};
use crate::text::{split_char, split_on, starts_with_char, trim, trim_str};
use crate::WordLibrary;
use vstd::prelude::*;

verus! {

/// Importer for the Pinyin Jiajia text format.
pub struct PinyinJiajiaImport;

impl PinyinJiajiaImport {
    pub fn new() -> (r: PinyinJiajiaImport) {
        PinyinJiajiaImport
    }
}

/// The entry on a line of this format.
pub open spec fn jiajia_entry(l: Seq<char>) -> Option<LineEntry> {
    let line = trim(l);
    let parts = split_on(line, '\t');
    if line.len() == 0 || line[0] == '#' || parts.len() < 2 {
        None
    } else {
        Some((parts[0], rank_at(parts, 2), CodeType::Pinyin, apostrophe_codes(parts[1])))
    }
}

/// Reads one line of this format.
pub fn parse_line(line: &str) -> (r: Result<Option<WordLibrary>, Error>)
    ensures
        line_gives(r, jiajia_entry(line@)),
{
    let t = trim_str(line);
    if t.as_str().is_empty() || starts_with_char(t.as_str(), '#') {
        return Ok(None);
    }
    let parts = split_char(t.as_str(), '\t');
    if parts.len() < 2 {
        return Ok(None);
    }
    let rank = rank_field(&parts, 2);
    Ok(Some(make_entry(field(&parts, 0), rank, CodeType::Pinyin, apostrophe_split(field(&parts, 1)))))
}

impl WordLibraryTextImport for PinyinJiajiaImport {
    fn import_line(&self, line: &str) -> (r: Result<Option<WordLibrary>, Error>)
        ensures
            line_gives(r, jiajia_entry(line@)),
    {
        parse_line(line)
    }

    fn default_encoding(&self) -> &'static str {
        "utf-16le"
    }
}

impl WordLibraryImport for PinyinJiajiaImport {
    fn import_bytes(&self, data: &[u8]) -> (r: Result<Vec<WordLibrary>, Error>) {
        import_text_bytes(self, data)
    }
}

} // verus!
