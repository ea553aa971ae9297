//! The libpinyin text format: `word rank syllable syllable ...`.
use crate::data::{one_per_position, strings_view, Code, CodeType};
use crate::error::Error;
use crate::import::{
    field, import_text_bytes, line_gives, make_entry, parse_rank, rank_of, LineEntry,
    WordLibraryImport, WordLibraryTextImport,
};
use crate::text::{split_whitespace, split_words, starts_with_char, trim, trim_str};
use crate::WordLibrary;
use vstd::prelude::*;

verus! {

/// Importer for the libpinyin text format.
pub struct LibpinyinImport;

impl LibpinyinImport {
    pub fn new() -> (r: LibpinyinImport) {
        LibpinyinImport
    }
}

/// The entry on a line of this format.
pub open spec fn libpinyin_entry(l: Seq<char>) -> Option<LineEntry> {
    let line = trim(l);
    let parts = split_words(line);
    if line.len() == 0 || line[0] == '#' || parts.len() < 3 {
        None
    } else {
        Some(
            (
                parts[0],
                rank_of(parts[1]),
                CodeType::Pinyin,
                one_per_position(parts.subrange(2, parts.len() as int)),
            ),
        )
    }
}

/// The fields from `from` on.
fn fields_from(parts: &Vec<String>, from: usize) -> (r: Vec<String>)
    requires
        from <= parts@.len(),
    ensures
        strings_view(r@) == strings_view(parts@).subrange(from as int, parts@.len() as int),
{
    let mut r: Vec<String> = Vec::new();
    let mut i: usize = from;
    while i < parts.len()
        invariant
            from <= i <= parts@.len(),
            strings_view(r@) == strings_view(parts@).subrange(from as int, i as int),
        decreases parts@.len() - i,
    {
        let ghost before = r@;
        r.push(parts[i].clone());
        assert(strings_view(r@) =~= strings_view(before).push(parts@[i as int]@));
        assert(strings_view(r@) =~= strings_view(parts@).subrange(from as int, i + 1));
        i = i + 1;
    }
    r
}

/// Reads one line of this format.
pub fn parse_line(line: &str) -> (r: Result<Option<WordLibrary>, Error>)
    ensures
        line_gives(r, libpinyin_entry(line@)),
{
    let t = trim_str(line);
    if t.as_str().is_empty() || starts_with_char(t.as_str(), '#') {
        return Ok(None);
    }
    let parts = split_whitespace(t.as_str());
    if parts.len() < 3 {
        return Ok(None);
    }
    let rank = parse_rank(field(&parts, 1));
    let codes = Code::from_char_list(fields_from(&parts, 2));
    Ok(Some(make_entry(field(&parts, 0), rank, CodeType::Pinyin, codes)))
}

impl WordLibraryTextImport for LibpinyinImport {
    fn import_line(&self, line: &str) -> (r: Result<Option<WordLibrary>, Error>)
        ensures
            line_gives(r, libpinyin_entry(line@)),
    {
        parse_line(line)
    }

    fn default_encoding(&self) -> &'static str {
        "utf-8"
    }
}

impl WordLibraryImport for LibpinyinImport {
    fn import_bytes(&self, data: &[u8]) -> (r: Result<Vec<WordLibrary>, Error>) {
        import_text_bytes(self, data)
    }
}

} // verus!
