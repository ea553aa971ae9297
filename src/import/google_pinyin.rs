//! The Google pinyin text format: `word<TAB>rank<TAB>syllables`, syllables
//! separated by spaces.
use crate::data::{one_per_position, Code, CodeType};
use crate::error::Error;
use crate::import::{
    field, import_text_bytes, line_gives, make_entry, parse_rank, rank_of, syllables, LineEntry,
    WordLibraryImport, WordLibraryTextImport,
};
use crate::text::{split_char, split_on, split_whitespace, split_words, trim, trim_str};
use crate::WordLibrary;
use vstd::prelude::*;

verus! {

/// Importer for the Google pinyin text format.
pub struct GooglePinyinImport;

/// The entry on a line of this format.
pub open spec fn google_entry(l: Seq<char>) -> Option<LineEntry> {
    let line = trim(l);
    let parts = split_on(line, '\t');
    if line.len() == 0 || parts.len() < 3 {
        None
    } else {
        Some((parts[0], rank_of(parts[1]), CodeType::Pinyin, one_per_position(split_words(parts[2]))))
    }
}

/// Reads one line of this format.
pub fn parse_line(line: &str) -> (r: Result<Option<WordLibrary>, Error>)
    ensures
        line_gives(r, google_entry(line@)),
{
    let t = trim_str(line);
    if t.as_str().is_empty() {
        return Ok(None);
    }
    let parts = split_char(t.as_str(), '\t');
    if parts.len() < 3 {
        return Ok(None);
    }
    let rank = parse_rank(field(&parts, 1));
    let codes = Code::from_char_list(split_whitespace(field(&parts, 2)));
    Ok(Some(make_entry(field(&parts, 0), rank, CodeType::Pinyin, codes)))
}

impl WordLibraryTextImport for GooglePinyinImport {
    fn import_line(&self, line: &str) -> (r: Result<Option<WordLibrary>, Error>)
        ensures
            line_gives(r, google_entry(line@)),
    {
        parse_line(line)
    }

    fn default_encoding(&self) -> &'static str {
        "gbk"
    }
}

impl WordLibraryImport for GooglePinyinImport {
    fn import_bytes(&self, data: &[u8]) -> (r: Result<Vec<WordLibrary>, Error>) {
        import_text_bytes(self, data)
    }
}

} // verus!
