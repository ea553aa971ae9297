//! The QQ Wubi text format: `code word rank`.
use crate::data::{Code, CodeType};
use crate::error::Error;
use crate::import::{
    field, import_text_bytes, line_gives, make_entry, rank_at, rank_field, LineEntry,
    WordLibraryImport, WordLibraryTextImport,
};
use crate::text::{split_whitespace, split_words, starts_with_char, trim, trim_str};
use crate::WordLibrary;
use vstd::prelude::*;

verus! {

/// Importer for the QQ Wubi text format.
pub struct QQWubiImport;

impl QQWubiImport {
    pub fn new() -> (r: QQWubiImport) {
        QQWubiImport
    }
}

/// The entry on a line of this format.
pub open spec fn qq_wubi_entry(l: Seq<char>) -> Option<LineEntry> {
    let line = trim(l);
    let parts = split_words(line);
    if line.len() == 0 || line[0] == '#' || parts.len() < 2 {
        None
    } else {
        Some((parts[1], rank_at(parts, 2), CodeType::Wubi, seq![seq![parts[0]]]))
    }
}

/// Reads one line of this format.
pub fn parse_line(line: &str) -> (r: Result<Option<WordLibrary>, Error>)
    ensures
        line_gives(r, qq_wubi_entry(line@)),
{
    let t = trim_str(line);
    if t.as_str().is_empty() || starts_with_char(t.as_str(), '#') {
        return Ok(None);
    }
    let parts = split_whitespace(t.as_str());
    if parts.len() < 2 {
        return Ok(None);
    }
    let rank = rank_field(&parts, 2);
    let code = Code::from_single(String::from_str(field(&parts, 0)));
    Ok(Some(make_entry(field(&parts, 1), rank, CodeType::Wubi, code)))
}

impl WordLibraryTextImport for QQWubiImport {
    fn import_line(&self, line: &str) -> (r: Result<Option<WordLibrary>, Error>)
        ensures
            line_gives(r, qq_wubi_entry(line@)),
    {
        parse_line(line)
    }

    fn default_encoding(&self) -> &'static str {
        "utf-8"
    }
}

impl WordLibraryImport for QQWubiImport {
    fn import_bytes(&self, data: &[u8]) -> (r: Result<Vec<WordLibrary>, Error>) {
        import_text_bytes(self, data)
    }
}

} // verus!
