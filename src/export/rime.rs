//! Writes the Rime text format: `word<TAB>code<TAB>rank` lines, joined by the
//! line ending of the chosen system.
use crate::data::{join, CodeType, WordLibrary};
use crate::error::Error;
use crate::export::{decimal, pinyin_of, rank_text, WordLibraryExport};
use vstd::prelude::*;
use vstd::string::*;

verus! {

/// The system whose line endings are written.
#[derive(Debug, Clone, Copy, PartialEq, Eq, Structural)]
pub enum OperatingSystem {
    Windows,
    MacOS,
    Linux,
}

/// The line ending of a system.
pub open spec fn ending_of(os: OperatingSystem) -> Seq<char> {
    match os {
        OperatingSystem::Windows => seq!['\r', '\n'],
        OperatingSystem::MacOS => seq!['\r'],
        OperatingSystem::Linux => seq!['\n'],
    }
}

impl OperatingSystem {
    /// CR LF on Windows, CR on classic Mac OS, LF on Linux.
    pub fn line_ending(&self) -> (r: &'static str)
        ensures
            r@ == ending_of(*self),
    {
        proof {
            reveal_strlit("\r\n");
            reveal_strlit("\r");
            reveal_strlit("\n");
        }
        match self {
            OperatingSystem::Windows => {
                assert("\r\n"@ =~= seq!['\r', '\n']);
                "\r\n"
            },
            OperatingSystem::MacOS => {
                assert("\r"@ =~= seq!['\r']);
                "\r"
            },
            OperatingSystem::Linux => {
                assert("\n"@ =~= seq!['\n']);
                "\n"
            },
        }
    }
}

/// Exporter for the Rime text format.
pub struct RimeExport {
    code_type: CodeType,
    os: OperatingSystem,
}

impl RimeExport {
    /// The kind of code written.
    pub closed spec fn kind(&self) -> CodeType {
        self.code_type
    }

    /// The system whose line endings are written.
    pub closed spec fn system(&self) -> OperatingSystem {
        self.os
    }

    /// Pinyin codes with Linux line endings.
    pub fn new() -> (r: RimeExport)
        ensures
            r.kind() == CodeType::Pinyin,
            r.system() == OperatingSystem::Linux,
    {
        RimeExport { code_type: CodeType::Pinyin, os: OperatingSystem::Linux }
    }

    /// Codes of the given kind with Linux line endings.
    pub fn with_code_type(code_type: CodeType) -> (r: RimeExport)
        ensures
            r.kind() == code_type,
            r.system() == OperatingSystem::Linux,
    {
        RimeExport { code_type, os: OperatingSystem::Linux }
    }

    /// The same exporter with the line endings of `os`.
    pub fn with_os(self, os: OperatingSystem) -> (r: RimeExport)
        ensures
            r.kind() == self.kind(),
            r.system() == os,
    {
        let mut s = self;
        s.os = os;
        s
    }
}

/// The code written for an entry: for a pinyin exporter its pinyin joined
/// by spaces, otherwise its single code; none when it has no single code.
pub open spec fn rime_code(w: WordLibrary, kind: CodeType) -> Option<Seq<char>> {
    if kind == CodeType::Pinyin {
        Some(pinyin_of(w, seq![' ']))
    } else if w.codes@.len() > 0 && w.codes@[0].len() > 0 {
        Some(w.codes@[0][0])
    } else {
        None
    }
}

/// The line for an entry: empty when it has no code, else
/// `word<TAB>code<TAB>rank`.
pub open spec fn rime_line(w: WordLibrary, kind: CodeType) -> Seq<char> {
    match rime_code(w, kind) {
        Some(c) => if c.len() == 0 {
            seq![]
        } else {
            w.word@ + seq!['\t'] + c + seq!['\t'] + decimal(w.rank as int)
        },
        None => seq![],
    }
}

/// The non-empty lines of the entries.
pub open spec fn rime_lines(ws: Seq<WordLibrary>, kind: CodeType) -> Seq<Seq<char>>
    decreases ws.len(),
{
    if ws.len() == 0 {
        seq![]
    } else {
        let prev = rime_lines(ws.drop_last(), kind);
        let l = rime_line(ws.last(), kind);
        if l.len() > 0 {
            prev.push(l)
        } else {
            prev
        }
    }
}

impl RimeExport {
    /// The line for one entry.
    pub fn line_for(&self, word: &WordLibrary) -> (r: String)
        ensures
            r@ == rime_line(*word, self.kind()),
    {
        let code = if self.code_type == CodeType::Pinyin {
            proof {
                reveal_strlit(" ");
                assert(" "@ =~= seq![' ']);
            }
            word.get_pinyin_string(" ")
        } else {
            match word.get_single_code() {
                Some(c) => String::from_str(c),
                None => {
                    return String::new();
                },
            }
        };
        if code.as_str().is_empty() {
            return String::new();
        }
        let mut s = String::from_str(word.word.as_str());
        s.append("\t");
        s.append(code.as_str());
        s.append("\t");
        s.append(rank_text(word.rank).as_str());
        proof {
            reveal_strlit("\t");
            assert(s@ =~= rime_line(*word, self.kind()));
        }
        s
    }

    /// The text of a whole list, as one file: the non-empty lines joined by
    /// the chosen line ending.
    pub fn export_all(&self, word_list: &Vec<WordLibrary>) -> (r: String)
        ensures
            r@ == join(rime_lines(word_list@, self.kind()), ending_of(self.system())),
    {
        let ending = self.os.line_ending();
        let ghost e = ending_of(self.system());
        let mut r = String::new();
        let mut any = false;
        let mut i: usize = 0;
        while i < word_list.len()
            invariant
                i <= word_list@.len(),
                ending@ == e,
                e == ending_of(self.system()),
                any == (rime_lines(word_list@.subrange(0, i as int), self.kind()).len() > 0),
                r@ == join(rime_lines(word_list@.subrange(0, i as int), self.kind()), e),
            decreases word_list@.len() - i,
        {
            let ghost prev = rime_lines(word_list@.subrange(0, i as int), self.kind());
            assert(word_list@.subrange(0, i + 1).drop_last() =~= word_list@.subrange(0, i as int));
            let line = self.line_for(&word_list[i]);
            if !line.as_str().is_empty() {
                if any {
                    r.append(ending);
                }
                r.append(line.as_str());
                proof {
                    let next = prev.push(line@);
                    assert(next.drop_last() =~= prev);
                    if !any {
                        assert(r@ =~= join(next, e));
                    } else {
                        assert(r@ =~= join(prev, e) + e + line@);
                    }
                }
                any = true;
            }
            i = i + 1;
        }
        assert(word_list@.subrange(0, word_list@.len() as int) =~= word_list@);
        r
    }
}

impl WordLibraryExport for RimeExport {
    fn export(&self, word_list: &Vec<WordLibrary>) -> (r: Result<Vec<String>, Error>)
        ensures
            r matches Ok(v) && v@.len() == 1 && v@[0]@ == join(
                rime_lines(word_list@, self.kind()),
                ending_of(self.system()),
            ),
    {
        let mut out: Vec<String> = Vec::new();
        out.push(self.export_all(word_list));
        Ok(out)
    }

    fn export_line(&self, word: &WordLibrary) -> (r: Result<String, Error>)
        ensures
            r matches Ok(s) && s@ == rime_line(*word, self.kind()),
    {
        Ok(self.line_for(word))
    }

    fn code_type(&self) -> (r: CodeType)
        ensures
            r == self.kind(),
    {
        self.code_type
    }

    fn format_name(&self) -> &'static str {
        "Rime"
    }

    fn encoding(&self) -> &'static str {
        "utf-8"
    }
}

} // verus!
