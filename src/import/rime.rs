//! The Rime text format: `word<TAB>code<TAB>rank`; pinyin codes are
//! syllables separated by spaces, other codes are taken whole.
use crate::data::{one_per_position, Code, CodeType};
use crate::error::Error;
use crate::import::{
    field, import_text_bytes, line_gives, make_entry, rank_at, rank_field, LineEntry,
    WordLibraryImport, WordLibraryTextImport,
};
use crate::text::{
    split_char, split_on, split_whitespace, split_words, starts_with_char, trim, trim_str,
};
use crate::WordLibrary;
use vstd::prelude::*;

verus! {

/// Importer for the Rime text format, for one kind of code.
pub struct RimeImport {
    code_type: CodeType,
}

impl RimeImport {
    /// An importer for pinyin codes.
    pub fn new() -> (r: RimeImport)
        ensures
            r.code_type() == CodeType::Pinyin,
    {
        RimeImport { code_type: CodeType::Pinyin }
    }

    /// An importer for codes of the given kind.
    pub fn with_code_type(code_type: CodeType) -> (r: RimeImport)
        ensures
            r.code_type() == code_type,
    {
        RimeImport { code_type }
    }

    /// The kind of code this importer reads.
    pub closed spec fn code_type(&self) -> CodeType {
        self.code_type
    }
}

/// The codes of a code field for the given kind.
pub open spec fn rime_codes(code: Seq<char>, t: CodeType) -> Seq<Seq<Seq<char>>> {
    if t == CodeType::Pinyin {
        one_per_position(split_words(code))
    } else {
        seq![seq![code]]
    }
}

/// The entry on a line of this format.
pub open spec fn rime_entry(l: Seq<char>, t: CodeType) -> Option<LineEntry> {
    let line = trim(l);
    let parts = split_on(line, '\t');
    if line.len() == 0 || line[0] == '#' || parts.len() < 2 {
        None
    } else {
        Some((parts[0], rank_at(parts, 2), t, rime_codes(parts[1], t)))
    }
}

impl RimeImport {
    /// Reads one line of this format.
    pub fn parse_line(&self, line: &str) -> (r: Result<Option<WordLibrary>, Error>)
        ensures
            line_gives(r, rime_entry(line@, self.code_type())),
    {
        let t = trim_str(line);
        if t.as_str().is_empty() || starts_with_char(t.as_str(), '#') {
            return Ok(None);
        }
        let parts = split_char(t.as_str(), '\t');
        if parts.len() < 2 {
            return Ok(None);
        }
        let rank = rank_field(&parts, 2);
        let code = field(&parts, 1);
        let codes = if self.code_type == CodeType::Pinyin {
            Code::from_char_list(split_whitespace(code))
        } else {
            Code::from_single(String::from_str(code))
        };
        Ok(Some(make_entry(field(&parts, 0), rank, self.code_type, codes)))
    }
}

impl WordLibraryTextImport for RimeImport {
    fn import_line(&self, line: &str) -> (r: Result<Option<WordLibrary>, Error>)
        ensures
            line_gives(r, rime_entry(line@, self.code_type())),
    {
        self.parse_line(line)
    }

    fn default_encoding(&self) -> &'static str {
        "utf-8"
    }
}

impl WordLibraryImport for RimeImport {
    fn import_bytes(&self, data: &[u8]) -> (r: Result<Vec<WordLibrary>, Error>) {
        import_text_bytes(self, data)
    }
}

} // verus!
