//! The chinese-pyim text format: `pinyin word word ...`, syllables joined by
//! apostrophes; lines opening with `#` or `;` are comments. A line may list
//! several words for one pinyin, the earlier ranked higher.
use crate::data::{strings_view, CodeType};
use crate::error::Error;
use crate::import::{
    apostrophe_codes, apostrophe_split, decode_with_label, entry_of, field, line_gives, make_entry,
    split_lines, lines_of, LineEntry, WordLibraryImport, WordLibraryTextImport,
};
use crate::text::{split_whitespace, split_words, starts_with_char, trim, trim_str};
use crate::WordLibrary;
use vstd::prelude::*;

verus! {

/// Importer for the chinese-pyim text format.
pub struct ChinesePyimImport;

impl ChinesePyimImport {
    pub fn new() -> (r: ChinesePyimImport) {
        ChinesePyimImport
    }
}

/// Whether a trimmed line holds no entry.
pub open spec fn pyim_skipped(line: Seq<char>) -> bool {
    line.len() == 0 || line[0] == '#' || line[0] == ';'
}

/// The entry for the first word on a line of this format, with rank zero.
pub open spec fn pyim_entry(l: Seq<char>) -> Option<LineEntry> {
    let line = trim(l);
    let parts = split_words(line);
    if pyim_skipped(line) || parts.len() < 2 {
        None
    } else {
        Some((parts[1], 0i32, CodeType::Pinyin, apostrophe_codes(parts[0])))
    }
}

/// The entries for every word on a line of this format: the word at field
/// `i + 1` is ranked by how many fields there are from field `i` on.
pub open spec fn pyim_entries(l: Seq<char>) -> Seq<LineEntry> {
    let line = trim(l);
    let parts = split_words(line);
    if pyim_skipped(line) || parts.len() < 2 {
        seq![]
    } else {
        Seq::new(
            (parts.len() - 1) as nat,
            |i: int| (parts[i + 1], (parts.len() - i) as i32, CodeType::Pinyin, apostrophe_codes(parts[0])),
        )
    }
}

/// Reads the first word of one line of this format.
pub fn parse_line(line: &str) -> (r: Result<Option<WordLibrary>, Error>)
    ensures
        line_gives(r, pyim_entry(line@)),
{
    let t = trim_str(line);
    let s = t.as_str();
    if s.is_empty() || starts_with_char(s, '#') || starts_with_char(s, ';') {
        return Ok(None);
    }
    let parts = split_whitespace(s);
    if parts.len() < 2 {
        return Ok(None);
    }
    Ok(Some(make_entry(field(&parts, 1), 0, CodeType::Pinyin, apostrophe_split(field(&parts, 0)))))
}

/// Reads every word of one line of this format.
pub fn parse_line_all(line: &str) -> (r: Vec<WordLibrary>)
    ensures
        r@.map_values(|w: WordLibrary| entry_of(w)) == pyim_entries(line@),
        forall|i: int| 0 <= i < r@.len() ==> !(#[trigger] r@[i]).is_english,
{
    let mut r: Vec<WordLibrary> = Vec::new();
    let t = trim_str(line);
    let s = t.as_str();
    if s.is_empty() || starts_with_char(s, '#') || starts_with_char(s, ';') {
        assert(r@.map_values(|w: WordLibrary| entry_of(w)) =~= pyim_entries(line@));
        return r;
    }
    let parts = split_whitespace(s);
    if parts.len() < 2 {
        assert(r@.map_values(|w: WordLibrary| entry_of(w)) =~= pyim_entries(line@));
        return r;
    }
    assert(!pyim_skipped(s@));
    let ghost want = pyim_entries(line@);
    let n = parts.len();
    let mut i: usize = 0;
    while i < n - 1
        invariant
            n == parts@.len(),
            n >= 2,
            s@ == trim(line@),
            !pyim_skipped(s@),
            strings_view(parts@) == split_words(s@),
            want == pyim_entries(line@),
            i <= n - 1,
            r@.map_values(|w: WordLibrary| entry_of(w)) == want.subrange(0, i as int),
            forall|j: int| 0 <= j < r@.len() ==> !(#[trigger] r@[j]).is_english,
        decreases n - 1 - i,
    {
        let rank = #[verifier::truncate] ((n - i) as i32);
        let w = make_entry(field(&parts, i + 1), rank, CodeType::Pinyin, apostrophe_split(field(&parts, 0)));
        let ghost before = r@;
        r.push(w);
        assert(r@.map_values(|w: WordLibrary| entry_of(w)) =~= before.map_values(
            |w: WordLibrary| entry_of(w),
        ).push(want[i as int]));
        assert(r@.map_values(|w: WordLibrary| entry_of(w)) =~= want.subrange(0, i + 1));
        i = i + 1;
    }
    assert(want.subrange(0, (n - 1) as int) =~= want);
    r
}

impl WordLibraryTextImport for ChinesePyimImport {
    fn import_line(&self, line: &str) -> (r: Result<Option<WordLibrary>, Error>)
        ensures
            line_gives(r, pyim_entry(line@)),
    {
        parse_line(line)
    }

    fn default_encoding(&self) -> &'static str {
        "utf-8"
    }
}

/// The entries of every line of a text, line after line.
pub open spec fn pyim_text_entries(lines: Seq<Seq<char>>) -> Seq<LineEntry>
    decreases lines.len(),
{
    if lines.len() == 0 {
        seq![]
    } else {
        pyim_text_entries(lines.drop_last()) + pyim_entries(lines.last())
    }
}

/// Reads every word of every line of a text of this format.
pub fn import_pyim_text(text: &str) -> (r: Vec<WordLibrary>)
    ensures
        r@.map_values(|w: WordLibrary| entry_of(w)) == pyim_text_entries(lines_of(text@)),
        forall|i: int| 0 <= i < r@.len() ==> !(#[trigger] r@[i]).is_english,
{
    let lines = split_lines(text);
    let ghost lv = strings_view(lines@);
    let mut result: Vec<WordLibrary> = Vec::new();
    let mut i: usize = 0;
    assert(result@.map_values(|w: WordLibrary| entry_of(w)) =~= Seq::<LineEntry>::empty());
    while i < lines.len()
        invariant
            lv == strings_view(lines@),
            lv == lines_of(text@),
            i <= lines@.len(),
            result@.map_values(|w: WordLibrary| entry_of(w)) == pyim_text_entries(
                lv.subrange(0, i as int),
            ),
            forall|j: int| 0 <= j < result@.len() ==> !(#[trigger] result@[j]).is_english,
        decreases lines@.len() - i,
    {
        let mut words = parse_line_all(lines[i].as_str());
        let ghost before = result@;
        let ghost added = words@;
        result.append(&mut words);
        assert forall|j: int| 0 <= j < result@.len() implies !(#[trigger] result@[j]).is_english by {
            if j >= before.len() {
                assert(result@[j] == added[j - before.len()]);
            }
        };
        assert(lv.subrange(0, i + 1).drop_last() =~= lv.subrange(0, i as int));
        assert(result@.map_values(|w: WordLibrary| entry_of(w)) =~= before.map_values(
            |w: WordLibrary| entry_of(w),
        ) + added.map_values(|w: WordLibrary| entry_of(w)));
        i = i + 1;
    }
    assert(lv.subrange(0, lines@.len() as int) =~= lv);
    result
}

impl WordLibraryImport for ChinesePyimImport {
    fn import_bytes(&self, data: &[u8]) -> (r: Result<Vec<WordLibrary>, Error>) {
        let text = decode_with_label(self.default_encoding(), data);
        Ok(import_pyim_text(text.as_str()))
    }
}

} // verus!
