//! The Microsoft pinyin text format: `pinyin rank word`, syllables joined by
//! apostrophes; lines opening with `#` or `//` are comments.
use crate::data::CodeType;
use crate::error::Error;
use crate::import::{
    apostrophe_codes, apostrophe_split, field, import_text_bytes, line_gives, make_entry,
    parse_rank, rank_of, syllables, LineEntry, WordLibraryImport, WordLibraryTextImport,
};
use crate::text::{split_whitespace, split_words, starts_with_char, trim, trim_str};
use crate::WordLibrary;
use vstd::prelude::*;

verus! {

/// Importer for the Microsoft pinyin text format.
pub struct MsPinyinImport;

impl MsPinyinImport {
    pub fn new() -> (r: MsPinyinImport) {
        MsPinyinImport
    }
}

/// Whether a line is a comment of this format.
pub open spec fn ms_comment(line: Seq<char>) -> bool {
    line[0] == '#' || (line.len() >= 2 && line[0] == '/' && line[1] == '/')
}

/// The entry on a line of this format.
pub open spec fn ms_entry(l: Seq<char>) -> Option<LineEntry> {
    let line = trim(l);
    let parts = split_words(line);
    if line.len() == 0 || ms_comment(line) || parts.len() < 3 {
        None
    } else {
        Some((parts[2], rank_of(parts[1]), CodeType::Pinyin, apostrophe_codes(parts[0])))
    }
}

/// Reads one line of this format.
pub fn parse_line(line: &str) -> (r: Result<Option<WordLibrary>, Error>)
    ensures
        line_gives(r, ms_entry(line@)),
{
    let t = trim_str(line);
    let s = t.as_str();
    if s.is_empty() || starts_with_char(s, '#') {
        return Ok(None);
    }
    if s.unicode_len() >= 2 && s.get_char(0) == '/' && s.get_char(1) == '/' {
        return Ok(None);
    }
    let parts = split_whitespace(s);
    if parts.len() < 3 {
        return Ok(None);
    }
    let rank = parse_rank(field(&parts, 1));
    Ok(Some(make_entry(field(&parts, 2), rank, CodeType::Pinyin, apostrophe_split(field(&parts, 0)))))
}

impl WordLibraryTextImport for MsPinyinImport {
    fn import_line(&self, line: &str) -> (r: Result<Option<WordLibrary>, Error>)
        ensures
            line_gives(r, ms_entry(line@)),
    {
        parse_line(line)
    }

    fn default_encoding(&self) -> &'static str {
        "utf-16le"
    }
}

impl WordLibraryImport for MsPinyinImport {
    fn import_bytes(&self, data: &[u8]) -> (r: Result<Vec<WordLibrary>, Error>) {
        import_text_bytes(self, data)
    }
}

} // verus!
