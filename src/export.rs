//! Exporters: each writes entries as the text of some format.
use crate::data::{default_codes, join, CodeType, WordLibrary};
use crate::error::Error;
use vstd::prelude::*;
use vstd::string::*;

pub mod qq_pinyin;
pub mod rime;

verus! {

/// Writes entries in some text format.
pub trait WordLibraryExport {
    /// The text of the whole list, as the contents of one or more files.
    fn export(&self, word_list: &Vec<WordLibrary>) -> Result<Vec<String>, Error>;

    /// The line for one entry; empty when the entry gives none.
    fn export_line(&self, word: &WordLibrary) -> Result<String, Error>;

    /// The kind of code this format writes.
    fn code_type(&self) -> CodeType;

    /// A name for the format.
    fn format_name(&self) -> &'static str;

    /// The label of the text encoding files of this format use.
    fn encoding(&self) -> &'static str;
}

/// The decimal digits, in order.
pub open spec fn digit_chars() -> Seq<char> {
    seq!['0', '1', '2', '3', '4', '5', '6', '7', '8', '9']
}

/// The decimal numeral of `n`.
pub open spec fn decimal_nat(n: nat) -> Seq<char>
    decreases n,
{
    if n < 10 {
        seq![digit_chars()[n as int]]
    } else {
        decimal_nat(n / 10).push(digit_chars()[(n % 10) as int])
    }
}

/// The decimal numeral of `v`, with a minus sign when it is negative.
pub open spec fn decimal(v: int) -> Seq<char> {
    if v < 0 {
        seq!['-'] + decimal_nat((-v) as nat)
    } else {
        decimal_nat(v as nat)
    }
}

fn digit_text(d: u64) -> (r: &'static str)
    requires
        d < 10,
    ensures
        r@ == seq![digit_chars()[d as int]],
{
    let r = if d == 0 {
        "0"
    } else if d == 1 {
        "1"
    } else if d == 2 {
        "2"
    } else if d == 3 {
        "3"
    } else if d == 4 {
        "4"
    } else if d == 5 {
        "5"
    } else if d == 6 {
        "6"
    } else if d == 7 {
        "7"
    } else if d == 8 {
        "8"
    } else {
        "9"
    };
    proof {
        reveal_strlit("0");
        reveal_strlit("1");
        reveal_strlit("2");
        reveal_strlit("3");
        reveal_strlit("4");
        reveal_strlit("5");
        reveal_strlit("6");
        reveal_strlit("7");
        reveal_strlit("8");
        reveal_strlit("9");
        assert(r@ =~= seq![digit_chars()[d as int]]);
    }
    r
}

fn append_decimal(s: &mut String, n: u64)
    ensures
        final(s)@ == old(s)@ + decimal_nat(n as nat),
    decreases n,
{
    if n >= 10 {
        append_decimal(s, n / 10);
    }
    s.append(digit_text(n % 10));
    assert(final(s)@ =~= old(s)@ + decimal_nat(n as nat));
}

/// The decimal numeral of a rank.
pub fn rank_text(v: i32) -> (r: String)
    ensures
        r@ == decimal(v as int),
{
    let mut s = String::new();
    if v < 0 {
        s.append("-");
        proof {
            reveal_strlit("-");
        }
        append_decimal(&mut s, (-(v as i64)) as u64);
        assert(s@ =~= decimal(v as int));
    } else {
        append_decimal(&mut s, v as u64);
        assert(s@ =~= decimal(v as int));
    }
    s
}

/// The pinyin of an entry: its default codes joined with `sep` when it is of
/// a pinyin kind, else nothing.
pub open spec fn pinyin_of(w: WordLibrary, sep: Seq<char>) -> Seq<char> {
    if w.code_type == CodeType::Pinyin || w.code_type == CodeType::TerraPinyin {
        join(default_codes(w.codes@), sep)
    } else {
        seq![]
    }
}

} // verus!
