//! The Wubi text formats: `word code rank`, separated by tabs where the line
//! holds one and by white space otherwise.
use crate::data::{one_per_position, strings_view, Code, CodeType};
use crate::error::Error;
use crate::import::{
    field, import_text_bytes, line_gives, make_entry, rank_at, rank_field, LineEntry,
    WordLibraryImport, WordLibraryTextImport,
};
use crate::text::{
    contains_char, split_char, split_on, split_whitespace, split_words, starts_with_char, trim,
    trim_str,
};
use crate::WordLibrary;
use vstd::prelude::*;

verus! {

/// Importer for Wubi 86 word lists.
pub struct Wubi86Import;

/// Importer for Wubi 98 word lists.
pub struct Wubi98Import;

/// Importer for Wubi New Age word lists.
pub struct WubiNewAgeImport;

/// The codes of a code field: its words where it holds a space, else the
/// field whole.
pub open spec fn wubi_codes(code: Seq<char>) -> Seq<Seq<char>> {
    if code.contains(' ') {
        split_words(code)
    } else {
        seq![code]
    }
}

/// The fields of a line of this format.
pub open spec fn wubi_fields(line: Seq<char>) -> Seq<Seq<char>> {
    if line.contains('\t') {
        split_on(line, '\t')
    } else {
        split_words(line)
    }
}

/// The entry on a line of this format, for codes of kind `t`.
pub open spec fn wubi_entry(l: Seq<char>, t: CodeType) -> Option<LineEntry> {
    let line = trim(l);
    let parts = wubi_fields(line);
    if line.len() == 0 || line[0] == '#' || parts.len() < 2 {
        None
    } else {
        Some((parts[0], rank_at(parts, 2), t, one_per_position(wubi_codes(parts[1]))))
    }
}

/// Reads one line of a Wubi word list, for codes of kind `code_type`.
pub fn parse_wubi_line(line: &str, code_type: CodeType) -> (r: Result<Option<WordLibrary>, Error>)
    ensures
        line_gives(r, wubi_entry(line@, code_type)),
{
    let t = trim_str(line);
    let s = t.as_str();
    if s.is_empty() || starts_with_char(s, '#') {
        return Ok(None);
    }
    let parts = if contains_char(s, '\t') {
        split_char(s, '\t')
    } else {
        split_whitespace(s)
    };
    if parts.len() < 2 {
        return Ok(None);
    }
    let code = field(&parts, 1);
    let codes = if contains_char(code, ' ') {
        split_whitespace(code)
    } else {
        let mut v: Vec<String> = Vec::new();
        v.push(String::from_str(code));
        assert(strings_view(v@) =~= seq![code@]);
        v
    };
    let rank = rank_field(&parts, 2);
    Ok(Some(make_entry(field(&parts, 0), rank, code_type, Code::from_char_list(codes))))
}

impl WordLibraryTextImport for Wubi86Import {
    fn import_line(&self, line: &str) -> (r: Result<Option<WordLibrary>, Error>)
        ensures
            line_gives(r, wubi_entry(line@, CodeType::Wubi)),
    {
        parse_wubi_line(line, CodeType::Wubi)
    }

    fn default_encoding(&self) -> &'static str {
        "utf-8"
    }
}

impl WordLibraryImport for Wubi86Import {
    fn import_bytes(&self, data: &[u8]) -> (r: Result<Vec<WordLibrary>, Error>) {
        import_text_bytes(self, data)
    }
}

impl WordLibraryTextImport for Wubi98Import {
    fn import_line(&self, line: &str) -> (r: Result<Option<WordLibrary>, Error>)
        ensures
            line_gives(r, wubi_entry(line@, CodeType::Wubi98)),
    {
        parse_wubi_line(line, CodeType::Wubi98)
    }

    fn default_encoding(&self) -> &'static str {
        "utf-8"
    }
}

impl WordLibraryImport for Wubi98Import {
    fn import_bytes(&self, data: &[u8]) -> (r: Result<Vec<WordLibrary>, Error>) {
        import_text_bytes(self, data)
    }
}

impl WordLibraryTextImport for WubiNewAgeImport {
    fn import_line(&self, line: &str) -> (r: Result<Option<WordLibrary>, Error>)
        ensures
            line_gives(r, wubi_entry(line@, CodeType::WubiNewAge)),
    {
        parse_wubi_line(line, CodeType::WubiNewAge)
    }

    fn default_encoding(&self) -> &'static str {
        "utf-8"
    }
}

impl WordLibraryImport for WubiNewAgeImport {
    fn import_bytes(&self, data: &[u8]) -> (r: Result<Vec<WordLibrary>, Error>) {
        import_text_bytes(self, data)
    }
}

} // verus!
