//! The record model shared by every importer and exporter.
use vstd::prelude::*;
use vstd::string::*;

verus! {

/// Which encoding scheme the codes of a record belong to.
#[derive(Debug, Clone, Copy, PartialEq, Eq, Hash, Structural)]
pub enum CodeType {
    UserDefinePhrase,
    Wubi,
    Wubi98,
    WubiNewAge,
    Zhengma,
    Cangjie,
    Unknown,
    UserDefine,
    Pinyin,
    Yong,
    QingsongErbi,
    ChaoqiangErbi,
    ChaoqingYinxin,
    English,
    InnerCode,
    XiandaiErbi,
    Zhuyin,
    TerraPinyin,
    Chaoyin,
    NoCode,
}

/// The codes of a word: for each position, the list of its alternatives.
#[derive(Debug, Clone, PartialEq, Eq, Default)]
pub struct Code(pub Vec<Vec<String>>);

/// What a list of strings holds, as character sequences.
pub open spec fn strings_view(v: Seq<String>) -> Seq<Seq<char>> {
    v.map_values(|s: String| s@)
}

impl View for Code {
    type V = Seq<Seq<Seq<char>>>;

    open spec fn view(&self) -> Seq<Seq<Seq<char>>> {
        positions_view(self.0@)
    }
}

/// What a list of positions holds, as character sequences.
pub open spec fn positions_view(v: Seq<Vec<String>>) -> Seq<Seq<Seq<char>>> {
    v.map_values(|p: Vec<String>| strings_view(p@))
}

/// Each code as a position of its own, holding that single alternative.
pub open spec fn one_per_position(codes: Seq<Seq<char>>) -> Seq<Seq<Seq<char>>> {
    codes.map_values(|c: Seq<char>| seq![c])
}

/// The first alternative of every position that has one, in order.
pub open spec fn default_codes(c: Seq<Seq<Seq<char>>>) -> Seq<Seq<char>>
    decreases c.len(),
{
    if c.len() == 0 {
        seq![]
    } else {
        let rest = default_codes(c.drop_last());
        if c.last().len() > 0 {
            rest.push(c.last()[0])
        } else {
            rest
        }
    }
}

/// The parts joined with `sep` between neighbours.
pub open spec fn join(parts: Seq<Seq<char>>, sep: Seq<char>) -> Seq<char>
    decreases parts.len(),
{
    if parts.len() == 0 {
        seq![]
    } else if parts.len() == 1 {
        parts[0]
    } else {
        join(parts.drop_last(), sep) + sep + parts.last()
    }
}

/// A code is empty when it has no position, or some position has no alternative.
pub open spec fn code_is_empty(c: Seq<Seq<Seq<char>>>) -> bool {
    c.len() == 0 || exists|i: int| 0 <= i < c.len() && (#[trigger] c[i]).len() == 0
}

/// One partial combination extended by one alternative: the separator is put
/// between them unless this is the first position or the prefix is empty.
pub open spec fn glue(prefix: Seq<char>, alt: Seq<char>, sep: Seq<char>, first: bool) -> Seq<char> {
    if !first && prefix.len() > 0 {
        prefix + sep + alt
    } else {
        prefix + alt
    }
}

/// Every partial combination extended by every alternative, the partial
/// combinations varying slowest.
pub open spec fn extend_all(
    res: Seq<Seq<char>>,
    alts: Seq<Seq<char>>,
    sep: Seq<char>,
    first: bool,
) -> Seq<Seq<char>>
    decreases res.len(),
{
    if res.len() == 0 {
        seq![]
    } else {
        extend_all(res.drop_last(), alts, sep, first) + alts.map_values(
            |a: Seq<char>| glue(res.last(), a, sep, first),
        )
    }
}

/// The combinations over the first `n` positions; positions without
/// alternatives are passed over.
pub open spec fn combos_upto(c: Seq<Seq<Seq<char>>>, n: nat, sep: Seq<char>) -> Seq<Seq<char>>
    decreases n,
{
    if n == 0 {
        seq![seq![]]
    } else {
        let prev = combos_upto(c, (n - 1) as nat, sep);
        if c[n - 1].len() == 0 {
            prev
        } else {
            extend_all(prev, c[n - 1], sep, n - 1 == 0)
        }
    }
}

/// The full Cartesian expansion of a code; none for a code without positions.
pub open spec fn cartesian(c: Seq<Seq<Seq<char>>>, sep: Seq<char>) -> Seq<Seq<char>> {
    if c.len() == 0 {
        seq![]
    } else {
        combos_upto(c, c.len(), sep)
    }
}

/// Copies a list of strings.
fn clone_strings(v: &Vec<String>) -> (r: Vec<String>)
    ensures
        strings_view(r@) == strings_view(v@),
{
    let mut r: Vec<String> = Vec::new();
    let mut i: usize = 0;
    while i < v.len()
        invariant
            i <= v@.len(),
            strings_view(r@) == strings_view(v@.subrange(0, i as int)),
        decreases v@.len() - i,
    {
        let ghost before = r@;
        r.push(v[i].clone());
        proof {
            assert(v@.subrange(0, i + 1) == v@.subrange(0, i as int).push(v@[i as int]));
            assert(strings_view(r@) =~= strings_view(before).push(v@[i as int]@));
            assert(strings_view(v@.subrange(0, i + 1)) =~= strings_view(
                v@.subrange(0, i as int),
            ).push(v@[i as int]@));
        }
        i = i + 1;
    }
    proof {
        assert(v@.subrange(0, v@.len() as int) == v@);
    }
    r
}

impl Code {
    /// A code without positions.
    pub fn new() -> (r: Code)
        ensures
            r@ == Seq::<Seq<Seq<char>>>::empty(),
    {
        let r = Code(Vec::new());
        assert(r@ =~= Seq::<Seq<Seq<char>>>::empty());
        r
    }

    /// One position holding one code for the whole word.
    pub fn from_single(code: String) -> (r: Code)
        ensures
            r@ == seq![seq![code@]],
    {
        let ghost c = code@;
        let mut inner: Vec<String> = Vec::new();
        inner.push(code);
        let mut outer: Vec<Vec<String>> = Vec::new();
        outer.push(inner);
        let r = Code(outer);
        assert(strings_view(r.0@[0]@) =~= seq![c]);
        assert(r@ =~= seq![seq![c]]);
        r
    }

    /// One position holding all the given alternatives for the whole word.
    pub fn from_multiple(codes: Vec<String>) -> (r: Code)
        ensures
            r@ == seq![strings_view(codes@)],
    {
        let ghost v = strings_view(codes@);
        let mut outer: Vec<Vec<String>> = Vec::new();
        outer.push(codes);
        let r = Code(outer);
        assert(r@ =~= seq![v]);
        r
    }

    /// A code whose positions are the given lists of alternatives.
    pub fn from_chars(char_codes: Vec<Vec<String>>) -> (r: Code)
        ensures
            r.0 == char_codes,
    {
        Code(char_codes)
    }

    /// One position per given code, each with that single alternative.
    pub fn from_char_list(codes: Vec<String>) -> (r: Code)
        ensures
            r@ == one_per_position(strings_view(codes@)),
    {
        let mut outer: Vec<Vec<String>> = Vec::new();
        let mut i: usize = 0;
        while i < codes.len()
            invariant
                i <= codes@.len(),
                Code(outer)@ == one_per_position(strings_view(codes@.subrange(0, i as int))),
            decreases codes@.len() - i,
        {
            let mut inner: Vec<String> = Vec::new();
            inner.push(codes[i].clone());
            proof {
                assert(strings_view(inner@) =~= seq![codes@[i as int]@]);
            }
            let ghost before = outer@;
            outer.push(inner);
            proof {
                assert(codes@.subrange(0, i + 1) == codes@.subrange(0, i as int).push(
                    codes@[i as int],
                ));
                assert(Code(outer)@ =~= positions_view(before).push(seq![codes@[i as int]@]));
                assert(strings_view(codes@.subrange(0, i + 1)) =~= strings_view(
                    codes@.subrange(0, i as int),
                ).push(codes@[i as int]@));
                assert(Code(outer)@ =~= one_per_position(
                    strings_view(codes@.subrange(0, i + 1)),
                ));
            }
            i = i + 1;
        }
        proof {
            assert(codes@.subrange(0, codes@.len() as int) == codes@);
        }
        Code(outer)
    }

    /// The first alternative of the first position, if there is one.
    pub fn get_single_code(&self) -> (r: Option<&str>)
        ensures
            self@.len() > 0 && self@[0].len() > 0 ==> r is Some && r->0@ == self@[0][0],
            !(self@.len() > 0 && self@[0].len() > 0) ==> r is None,
    {
        if self.0.len() > 0 && self.0[0].len() > 0 {
            Some(self.0[0][0].as_str())
        } else {
            None
        }
    }

    /// The first alternative of each position, positions without one left out.
    pub fn get_default_codes(&self) -> (r: Vec<&str>)
        ensures
            r@.map_values(|s: &str| s@) == default_codes(self@),
    {
        let mut r: Vec<&str> = Vec::new();
        let mut i: usize = 0;
        while i < self.0.len()
            invariant
                i <= self@.len(),
                r@.map_values(|s: &str| s@) == default_codes(self@.subrange(0, i as int)),
            decreases self@.len() - i,
        {
            proof {
                assert(self@.subrange(0, i + 1).drop_last() =~= self@.subrange(0, i as int));
            }
            if self.0[i].len() > 0 {
                r.push(self.0[i][0].as_str());
                proof {
                    assert(r@.map_values(|s: &str| s@) =~= default_codes(
                        self@.subrange(0, i + 1),
                    ));
                }
            }
            i = i + 1;
        }
        proof {
            assert(self@.subrange(0, self@.len() as int) =~= self@);
        }
        r
    }

    /// Whether the code has no position, or some position has no alternative.
    pub fn is_empty(&self) -> (r: bool)
        ensures
            r == code_is_empty(self@),
    {
        if self.0.len() == 0 {
            return true;
        }
        let mut i: usize = 0;
        while i < self.0.len()
            invariant
                i <= self@.len(),
                forall|j: int| 0 <= j < i ==> (#[trigger] self@[j]).len() > 0,
            decreases self@.len() - i,
        {
            if self.0[i].len() == 0 {
                assert(self@[i as int].len() == 0);
                return true;
            }
            i = i + 1;
        }
        false
    }

    /// A copy of this code.
    pub fn copy(&self) -> (r: Code)
        ensures
            r@ == self@,
    {
        let mut out: Vec<Vec<String>> = Vec::new();
        let mut i: usize = 0;
        while i < self.0.len()
            invariant
                i <= self@.len(),
                positions_view(out@) == self@.subrange(0, i as int),
            decreases self@.len() - i,
        {
            let ghost before = out@;
            out.push(clone_strings(&self.0[i]));
            assert(positions_view(out@) =~= positions_view(before).push(self@[i as int]));
            i = i + 1;
        }
        assert(self@.subrange(0, self@.len() as int) =~= self@);
        Code(out)
    }

    /// The number of positions.
    pub fn len(&self) -> (r: usize)
        ensures
            r == self@.len(),
    {
        self.0.len()
    }

    /// The default codes joined with `separator`.
    pub fn to_string_with_separator(&self, separator: &str) -> (r: String)
        ensures
            r@ == join(default_codes(self@), separator@),
    {
        let parts = self.get_default_codes();
        join_strs(&parts, separator)
    }

    /// Every combination of one alternative per position, concatenated.
    pub fn cartesian_product(&self) -> (r: Vec<String>)
        ensures
            strings_view(r@) == cartesian(self@, Seq::<char>::empty()),
    {
        proof {
            reveal_strlit("");
            assert(""@ =~= Seq::<char>::empty());
        }
        self.expand("")
    }

    /// Every combination of one alternative per position, joined with
    /// `separator`.
    pub fn cartesian_product_with_separator(&self, separator: &str) -> (r: Vec<String>)
        ensures
            strings_view(r@) == cartesian(self@, separator@),
    {
        self.expand(separator)
    }

    fn expand(&self, sep: &str) -> (r: Vec<String>)
        ensures
            strings_view(r@) == cartesian(self@, sep@),
    {
        if self.0.len() == 0 {
            let r: Vec<String> = Vec::new();
            assert(strings_view(r@) =~= Seq::<Seq<char>>::empty());
            return r;
        }
        let mut result: Vec<String> = Vec::new();
        result.push(String::new());
        assert(strings_view(result@) =~= seq![Seq::<char>::empty()]);
        let mut i: usize = 0;
        while i < self.0.len()
            invariant
                i <= self@.len(),
                strings_view(result@) == combos_upto(self@, i as nat, sep@),
            decreases self@.len() - i,
        {
            let codes = &self.0[i];
            if codes.len() > 0 {
                result = extend_each(&result, codes, sep, i == 0);
            }
            i = i + 1;
        }
        result
    }
}

/// The parts joined with `sep` between neighbours.
fn join_strs(parts: &Vec<&str>, sep: &str) -> (r: String)
    ensures
        r@ == join(parts@.map_values(|s: &str| s@), sep@),
{
    let ghost pv = parts@.map_values(|s: &str| s@);
    let mut r = String::new();
    let mut i: usize = 0;
    while i < parts.len()
        invariant
            i <= parts@.len(),
            pv == parts@.map_values(|s: &str| s@),
            r@ == join(pv.subrange(0, i as int), sep@),
        decreases parts@.len() - i,
    {
        proof {
            assert(pv.subrange(0, i + 1).drop_last() =~= pv.subrange(0, i as int));
        }
        if i > 0 {
            r.append(sep);
        }
        r.append(parts[i]);
        proof {
            if i == 0 {
                assert(r@ =~= pv[0]);
            } else {
                assert(r@ =~= join(pv.subrange(0, i as int), sep@) + sep@ + pv[i as int]);
            }
        }
        i = i + 1;
    }
    proof {
        assert(pv.subrange(0, parts@.len() as int) =~= pv);
    }
    r
}

/// Every string of `res` extended by every alternative of `alts`.
fn extend_each(res: &Vec<String>, alts: &Vec<String>, sep: &str, first: bool) -> (r: Vec<String>)
    ensures
        strings_view(r@) == extend_all(strings_view(res@), strings_view(alts@), sep@, first),
{
    let ghost rv = strings_view(res@);
    let ghost av = strings_view(alts@);
    let mut out: Vec<String> = Vec::new();
    let mut a: usize = 0;
    while a < res.len()
        invariant
            a <= res@.len(),
            rv == strings_view(res@),
            av == strings_view(alts@),
            strings_view(out@) == extend_all(rv.subrange(0, a as int), av, sep@, first),
        decreases res@.len() - a,
    {
        let ghost before = strings_view(out@);
        let mut b: usize = 0;
        while b < alts.len()
            invariant
                a < res@.len(),
                b <= alts@.len(),
                rv == strings_view(res@),
                av == strings_view(alts@),
                strings_view(out@) == before + av.subrange(0, b as int).map_values(
                    |x: Seq<char>| glue(rv[a as int], x, sep@, first),
                ),
            decreases alts@.len() - b,
        {
            let mut s = res[a].clone();
            if !first && !s.as_str().is_empty() {
                s.append(sep);
            }
            s.append(alts[b].as_str());
            proof {
                assert(s@ =~= glue(rv[a as int], av[b as int], sep@, first)) by {
                    if !first && rv[a as int].len() > 0 {
                        assert(s@ =~= rv[a as int] + sep@ + av[b as int]);
                    }
                };
            }
            let ghost prev = out@;
            out.push(s);
            proof {
                assert(strings_view(out@) =~= strings_view(prev).push(
                    glue(rv[a as int], av[b as int], sep@, first),
                ));
                assert(av.subrange(0, b + 1).map_values(
                    |x: Seq<char>| glue(rv[a as int], x, sep@, first),
                ) =~= av.subrange(0, b as int).map_values(
                    |x: Seq<char>| glue(rv[a as int], x, sep@, first),
                ).push(glue(rv[a as int], av[b as int], sep@, first)));
                assert(strings_view(out@) =~= before + av.subrange(0, b + 1).map_values(
                    |x: Seq<char>| glue(rv[a as int], x, sep@, first),
                ));
            }
            b = b + 1;
        }
        proof {
            assert(av.subrange(0, alts@.len() as int) =~= av);
            assert(rv.subrange(0, a + 1).drop_last() =~= rv.subrange(0, a as int));
        }
        a = a + 1;
    }
    proof {
        assert(rv.subrange(0, res@.len() as int) =~= rv);
    }
    out
}

impl From<Vec<Vec<String>>> for Code {
    fn from(codes: Vec<Vec<String>>) -> (r: Code) {
        Code(codes)
    }
}

impl vstd::std_specs::convert::FromSpecImpl<Vec<Vec<String>>> for Code {
    open spec fn obeys_from_spec() -> bool {
        true
    }

    open spec fn from_spec(codes: Vec<Vec<String>>) -> Code {
        Code(codes)
    }
}

impl From<Vec<String>> for Code {
    /// One position per given code, each with that single alternative.
    fn from(codes: Vec<String>) -> (r: Code)
        ensures
            r@ == one_per_position(strings_view(codes@)),
    {
        Code::from_char_list(codes)
    }
}

impl vstd::std_specs::convert::FromSpecImpl<Vec<String>> for Code {
    /// The result is a fresh vector that no spec value names; `from` states
    /// what it holds instead.
    open spec fn obeys_from_spec() -> bool {
        false
    }

    open spec fn from_spec(codes: Vec<String>) -> Code {
        arbitrary()
    }
}

/// One dictionary entry: a word, its frequency, and its codes.
#[derive(Debug, Clone, PartialEq)]
pub struct WordLibrary {
    pub word: String,
    pub rank: i32,
    pub code_type: CodeType,
    pub codes: Code,
    pub is_english: bool,
}

/// An ordered list of entries.
pub type WordLibraryList = Vec<WordLibrary>;

/// Whether codes of this kind are pinyin syllables.
pub open spec fn is_pinyin_kind(t: CodeType) -> bool {
    t == CodeType::Pinyin || t == CodeType::TerraPinyin
}

impl WordLibrary {
    /// An entry for `word` with rank 0, pinyin kind and no codes.
    pub fn new(word: String) -> (r: WordLibrary)
        ensures
            r.word@ == word@,
            r.rank == 0,
            r.code_type == CodeType::Pinyin,
            r.codes@ == Seq::<Seq<Seq<char>>>::empty(),
            !r.is_english,
    {
        WordLibrary { word, rank: 0, code_type: CodeType::Pinyin, codes: Code::new(), is_english: false }
    }

    /// An entry for `word` with the given rank, pinyin kind and no codes.
    pub fn with_rank(word: String, rank: i32) -> (r: WordLibrary)
        ensures
            r.word@ == word@,
            r.rank == rank,
            r.code_type == CodeType::Pinyin,
            r.codes@ == Seq::<Seq<Seq<char>>>::empty(),
            !r.is_english,
    {
        WordLibrary { word, rank, code_type: CodeType::Pinyin, codes: Code::new(), is_english: false }
    }

    /// Replaces the code kind and the codes.
    pub fn set_code(&mut self, code_type: CodeType, codes: Code)
        ensures
            final(self).code_type == code_type,
            final(self).codes == codes,
            final(self).word == old(self).word,
            final(self).rank == old(self).rank,
            final(self).is_english == old(self).is_english,
    {
        self.code_type = code_type;
        self.codes = codes;
    }

    /// The default codes joined with `separator` for a pinyin entry; empty
    /// for any other kind.
    pub fn get_pinyin_string(&self, separator: &str) -> (r: String)
        ensures
            is_pinyin_kind(self.code_type) ==> r@ == join(default_codes(self.codes@), separator@),
            !is_pinyin_kind(self.code_type) ==> r@ == Seq::<char>::empty(),
    {
        if self.code_type == CodeType::Pinyin || self.code_type == CodeType::TerraPinyin {
            self.codes.to_string_with_separator(separator)
        } else {
            String::new()
        }
    }

    /// The first alternative of the first position of the codes.
    pub fn get_single_code(&self) -> (r: Option<&str>)
        ensures
            self.codes@.len() > 0 && self.codes@[0].len() > 0 ==> r is Some && r->0@
                == self.codes@[0][0],
            !(self.codes@.len() > 0 && self.codes@[0].len() > 0) ==> r is None,
    {
        self.codes.get_single_code()
    }

    /// Whether the codes have positions and every one holds an alternative.
    pub fn has_code(&self) -> (r: bool)
        ensures
            r == !code_is_empty(self.codes@),
    {
        !self.codes.is_empty()
    }

    /// A copy of this entry.
    pub fn copy(&self) -> (r: WordLibrary)
        ensures
            r.word@ == self.word@,
            r.rank == self.rank,
            r.code_type == self.code_type,
            r.codes@ == self.codes@,
            r.is_english == self.is_english,
    {
        WordLibrary {
            word: self.word.clone(),
            rank: self.rank,
            code_type: self.code_type,
            codes: self.codes.copy(),
            is_english: self.is_english,
        }
    }

    /// The number of characters of the word.
    pub fn len(&self) -> (r: usize)
        ensures
            r == self.word@.len(),
    {
        self.word.as_str().unicode_len()
    }

    /// Whether the word has no characters.
    pub fn is_empty(&self) -> (r: bool)
        ensures
            r == (self.word@.len() == 0),
    {
        self.word.as_str().is_empty()
    }
}

} // verus!
