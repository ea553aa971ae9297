//! Writes the QQ pinyin text format: `pinyin word rank` lines joined by CR LF;
//! the last line repeats its pinyin and rank after a comma.
use crate::data::{join, CodeType, WordLibrary};
use crate::error::Error;
use crate::export::{decimal, pinyin_of, rank_text, WordLibraryExport};
use vstd::prelude::*;
use vstd::string::*;

verus! {

/// Exporter for the QQ pinyin text format.
pub struct QQPinyinExport;

impl QQPinyinExport {
    pub fn new() -> (r: QQPinyinExport) {
        QQPinyinExport
    }
}

/// The line for an entry: none (an error) for an entry that is not pinyin,
/// empty for one without pinyin, else `pinyin word rank`.
pub open spec fn qq_line(w: WordLibrary) -> Option<Seq<char>> {
    if w.code_type != CodeType::Pinyin {
        None
    } else {
        let p = pinyin_of(w, seq!['\'']);
        if p.len() == 0 {
            Some(seq![])
        } else {
            Some(p + seq![' '] + w.word@ + seq![' '] + decimal(w.rank as int))
        }
    }
}

/// The non-empty lines of the entries, entries without a line passed over.
pub open spec fn qq_lines(ws: Seq<WordLibrary>) -> Seq<Seq<char>>
    decreases ws.len(),
{
    if ws.len() == 0 {
        seq![]
    } else {
        let prev = qq_lines(ws.drop_last());
        match qq_line(ws.last()) {
            Some(l) => if l.len() > 0 {
                prev.push(l)
            } else {
                prev
            },
            None => prev,
        }
    }
}

/// The text of a list: the lines of all entries but the last, then the
/// last entry's line followed by `, pinyin rank`, joined by CR LF; an error
/// when the last entry is not pinyin, and one empty text for an empty list.
pub open spec fn qq_export(ws: Seq<WordLibrary>) -> Option<Seq<char>> {
    if ws.len() == 0 {
        Some(seq![])
    } else {
        match qq_line(ws.last()) {
            None => None,
            Some(l) => {
                let tail = if l.len() > 0 {
                    seq![
                        l + seq![',', ' '] + pinyin_of(ws.last(), seq!['\'']) + seq![' ']
                            + decimal(ws.last().rank as int),
                    ]
                } else {
                    seq![]
                };
                Some(join(qq_lines(ws.drop_last()) + tail, seq!['\r', '\n']))
            },
        }
    }
}

/// The line for one entry.
pub fn export_qq_line(word: &WordLibrary) -> (r: Result<String, Error>)
    ensures
        qq_line(*word) is None ==> (r matches Err(e) && e is InvalidFormat),
        qq_line(*word) matches Some(l) ==> (r matches Ok(s) && s@ == l),
{
    if word.code_type != CodeType::Pinyin {
        return Err(Error::InvalidFormat(String::from_str("this format needs pinyin codes")));
    }
    let pinyin = word.get_pinyin_string("'");
    proof {
        reveal_strlit("'");
        assert("'"@ =~= seq!['\'']);
    }
    if pinyin.as_str().is_empty() {
        return Ok(String::new());
    }
    let mut s = pinyin;
    s.append(" ");
    s.append(word.word.as_str());
    s.append(" ");
    s.append(rank_text(word.rank).as_str());
    proof {
        reveal_strlit(" ");
        assert(s@ =~= qq_line(*word)->0);
    }
    Ok(s)
}

/// Joins lines with CR LF between them.
fn join_crlf(lines: &Vec<String>) -> (r: String)
    ensures
        r@ == join(lines@.map_values(|s: String| s@), seq!['\r', '\n']),
{
    let ghost lv = lines@.map_values(|s: String| s@);
    let mut r = String::new();
    let mut i: usize = 0;
    proof {
        reveal_strlit("\r\n");
        assert("\r\n"@ =~= seq!['\r', '\n']);
    }
    while i < lines.len()
        invariant
            i <= lines@.len(),
            lv == lines@.map_values(|s: String| s@),
            "\r\n"@ == seq!['\r', '\n'],
            r@ == join(lv.subrange(0, i as int), seq!['\r', '\n']),
        decreases lines@.len() - i,
    {
        assert(lv.subrange(0, i + 1).drop_last() =~= lv.subrange(0, i as int));
        if i > 0 {
            r.append("\r\n");
        }
        r.append(lines[i].as_str());
        proof {
            if i == 0 {
                assert(r@ =~= lv[0]);
            } else {
                assert(r@ =~= join(lv.subrange(0, i as int), seq!['\r', '\n']) + seq!['\r', '\n']
                    + lv[i as int]);
            }
        }
        i = i + 1;
    }
    assert(lv.subrange(0, lines@.len() as int) =~= lv);
    r
}

/// The text of a whole list, as one file.
pub fn export_qq(word_list: &Vec<WordLibrary>) -> (r: Result<Vec<String>, Error>)
    ensures
        qq_export(word_list@) is None ==> r is Err,
        qq_export(word_list@) matches Some(t) ==> (r matches Ok(v) && v@.len() == 1 && v@[0]@
            == t),
{
    let mut out: Vec<String> = Vec::new();
    let n = word_list.len();
    if n == 0 {
        out.push(String::new());
        return Ok(out);
    }
    let mut lines: Vec<String> = Vec::new();
    let mut i: usize = 0;
    while i < n - 1
        invariant
            n == word_list@.len(),
            n > 0,
            i <= n - 1,
            lines@.map_values(|s: String| s@) == qq_lines(word_list@.subrange(0, i as int)),
        decreases n - 1 - i,
    {
        assert(word_list@.subrange(0, i + 1).drop_last() =~= word_list@.subrange(0, i as int));
        let ghost before = lines@;
        match export_qq_line(&word_list[i]) {
            Ok(line) => {
                if !line.as_str().is_empty() {
                    lines.push(line);
                    assert(lines@.map_values(|s: String| s@) =~= before.map_values(
                        |s: String| s@,
                    ).push(qq_line(word_list@[i as int])->0));
                }
            },
            Err(_) => {},
        }
        i = i + 1;
    }
    assert(word_list@.subrange(0, (n - 1) as int) =~= word_list@.drop_last());
    let last = &word_list[n - 1];
    let line = export_qq_line(last)?;
    if !line.as_str().is_empty() {
        let mut s = line;
        s.append(", ");
        s.append(last.get_pinyin_string("'").as_str());
        s.append(" ");
        s.append(rank_text(last.rank).as_str());
        proof {
            reveal_strlit(", ");
            reveal_strlit("'");
            reveal_strlit(" ");
            assert("'"@ =~= seq!['\'']);
            assert(s@ =~= qq_line(*last)->0 + seq![',', ' '] + pinyin_of(*last, seq!['\''])
                + seq![' '] + decimal(last.rank as int));
        }
        let ghost before = lines@;
        let ghost x = qq_line(*last)->0 + seq![',', ' '] + pinyin_of(*last, seq!['\'']) + seq![
            ' ',
        ] + decimal(last.rank as int);
        lines.push(s);
        assert(lines@.map_values(|s: String| s@) =~= before.map_values(|s: String| s@).push(x));
        assert(lines@.map_values(|s: String| s@) =~= qq_lines(word_list@.drop_last()) + seq![x]);
    } else {
        assert(lines@.map_values(|s: String| s@) =~= qq_lines(word_list@.drop_last())
            + Seq::<Seq<char>>::empty());
    }
    out.push(join_crlf(&lines));
    Ok(out)
}

impl WordLibraryExport for QQPinyinExport {
    fn export(&self, word_list: &Vec<WordLibrary>) -> (r: Result<Vec<String>, Error>)
        ensures
            qq_export(word_list@) is None ==> r is Err,
            qq_export(word_list@) matches Some(t) ==> (r matches Ok(v) && v@.len() == 1
                && v@[0]@ == t),
    {
        export_qq(word_list)
    }

    fn export_line(&self, word: &WordLibrary) -> (r: Result<String, Error>)
        ensures
            qq_line(*word) is None ==> (r matches Err(e) && e is InvalidFormat),
            qq_line(*word) matches Some(l) ==> (r matches Ok(s) && s@ == l),
    {
        export_qq_line(word)
    }

    fn code_type(&self) -> (r: CodeType)
        ensures
            r == CodeType::Pinyin,
    {
        CodeType::Pinyin
    }

    fn format_name(&self) -> &'static str {
        "QQ Pinyin"
    }

    fn encoding(&self) -> &'static str {
        "utf-16le"
    }
}

} // verus!
