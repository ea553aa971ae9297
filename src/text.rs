//! Line-level text handling shared by the text formats: trimming, splitting
//! on a character or on whitespace, and reading an integer.
use crate::data::strings_view;
use vstd::prelude::*;
use vstd::string::*;

verus! {

/// The characters that Unicode classes as white space.
pub open spec fn is_ws(c: char) -> bool {
    let u = c as u32;
    (0x09 <= u <= 0x0d) || u == 0x20 || u == 0x85 || u == 0xa0 || u == 0x1680 || (0x2000 <= u
        <= 0x200a) || u == 0x2028 || u == 0x2029 || u == 0x202f || u == 0x205f || u == 0x3000
}

/// Whether `c` is white space.
pub fn is_whitespace(c: char) -> (r: bool)
    ensures
        r == is_ws(c),
{
    let u = c as u32;
    (0x09 <= u && u <= 0x0d) || u == 0x20 || u == 0x85 || u == 0xa0 || u == 0x1680 || (0x2000
        <= u && u <= 0x200a) || u == 0x2028 || u == 0x2029 || u == 0x202f || u == 0x205f || u
        == 0x3000
}

/// `s` without its leading white space.
pub open spec fn trim_start(s: Seq<char>) -> Seq<char>
    decreases s.len(),
{
    if s.len() > 0 && is_ws(s[0]) {
        trim_start(s.subrange(1, s.len() as int))
    } else {
        s
    }
}

/// `s` without its trailing white space.
pub open spec fn trim_end(s: Seq<char>) -> Seq<char>
    decreases s.len(),
{
    if s.len() > 0 && is_ws(s.last()) {
        trim_end(s.drop_last())
    } else {
        s
    }
}

/// `s` without leading and trailing white space.
pub open spec fn trim(s: Seq<char>) -> Seq<char> {
    trim_end(trim_start(s))
}

/// The characters of `s`, one by one.
pub fn chars_of(s: &str) -> (r: Vec<char>)
    ensures
        r@ == s@,
{
    let n = s.unicode_len();
    let mut r: Vec<char> = Vec::new();
    let mut i: usize = 0;
    while i < n
        invariant
            n == s@.len(),
            i <= n,
            r@ == s@.subrange(0, i as int),
        decreases n - i,
    {
        r.push(s.get_char(i));
        assert(r@ =~= s@.subrange(0, i + 1));
        i = i + 1;
    }
    assert(r@ =~= s@);
    r
}

/// The characters of `s` from `a` to `b`, as a string.
pub fn substring(s: &str, a: usize, b: usize) -> (r: String)
    requires
        a <= b <= s@.len(),
    ensures
        r@ == s@.subrange(a as int, b as int),
{
    String::from_str(s.substring_char(a, b))
}

/// `s` without leading and trailing white space.
pub fn trim_str(s: &str) -> (r: String)
    ensures
        r@ == trim(s@),
{
    let c = chars_of(s);
    let n = c.len();
    let mut a: usize = 0;
    assert(s@.subrange(0, n as int) =~= s@);
    while a < n && is_whitespace(c[a])
        invariant
            c@ == s@,
            n == s@.len(),
            a <= n,
            trim_start(s@) == trim_start(s@.subrange(a as int, n as int)),
        decreases n - a,
    {
        assert(s@.subrange(a as int, n as int).subrange(1, (n - a) as int) =~= s@.subrange(
            a + 1,
            n as int,
        ));
        a = a + 1;
    }
    let mut b: usize = n;
    while b > a && is_whitespace(c[b - 1])
        invariant
            c@ == s@,
            n == s@.len(),
            a <= b <= n,
            trim_start(s@) == s@.subrange(a as int, n as int),
            trim(s@) == trim_end(s@.subrange(a as int, b as int)),
        decreases b,
    {
        assert(s@.subrange(a as int, b as int).drop_last() =~= s@.subrange(a as int, b - 1));
        b = b - 1;
    }
    substring(s, a, b)
}

/// The pieces between occurrences of `d`, so far, and the piece being read.
pub open spec fn split_state(s: Seq<char>, d: char) -> (Seq<Seq<char>>, Seq<char>)
    decreases s.len(),
{
    if s.len() == 0 {
        (seq![], seq![])
    } else {
        let prev = split_state(s.drop_last(), d);
        if s.last() == d {
            (prev.0.push(prev.1), seq![])
        } else {
            (prev.0, prev.1.push(s.last()))
        }
    }
}

/// The pieces of `s` between occurrences of `d`, empty pieces included.
pub open spec fn split_on(s: Seq<char>, d: char) -> Seq<Seq<char>> {
    split_state(s, d).0.push(split_state(s, d).1)
}

/// The pieces of `s` between occurrences of `d`, empty pieces included.
pub fn split_char(s: &str, d: char) -> (r: Vec<String>)
    ensures
        strings_view(r@) == split_on(s@, d),
{
    let c = chars_of(s);
    let n = c.len();
    let mut done: Vec<String> = Vec::new();
    let mut start: usize = 0;
    let mut i: usize = 0;
    assert(s@.subrange(0, 0) =~= Seq::<char>::empty());
    assert(strings_view(done@) =~= Seq::<Seq<char>>::empty());
    while i < n
        invariant
            c@ == s@,
            n == s@.len(),
            start <= i <= n,
            split_state(s@.subrange(0, i as int), d) == (strings_view(done@), s@.subrange(
                start as int,
                i as int,
            )),
        decreases n - i,
    {
        assert(s@.subrange(0, i + 1).drop_last() =~= s@.subrange(0, i as int));
        if c[i] == d {
            let piece = substring(s, start, i);
            let ghost before = done@;
            done.push(piece);
            assert(strings_view(done@) =~= strings_view(before).push(s@.subrange(start as int, i as int)));
            start = i + 1;
            assert(s@.subrange(start as int, i + 1) =~= Seq::<char>::empty());
        } else {
            assert(s@.subrange(start as int, i + 1) =~= s@.subrange(start as int, i as int).push(
                s@[i as int],
            ));
        }
        i = i + 1;
    }
    assert(s@.subrange(0, n as int) =~= s@);
    let last = substring(s, start, n);
    let ghost before = done@;
    done.push(last);
    assert(strings_view(done@) =~= strings_view(before).push(s@.subrange(start as int, n as int)));
    done
}

/// The words found so far, and the word being read.
pub open spec fn words_state(s: Seq<char>) -> (Seq<Seq<char>>, Seq<char>)
    decreases s.len(),
{
    if s.len() == 0 {
        (seq![], seq![])
    } else {
        let prev = words_state(s.drop_last());
        if is_ws(s.last()) {
            (if prev.1.len() > 0 {
                prev.0.push(prev.1)
            } else {
                prev.0
            }, seq![])
        } else {
            (prev.0, prev.1.push(s.last()))
        }
    }
}

/// The non-empty runs of non-white-space characters of `s`.
pub open spec fn split_words(s: Seq<char>) -> Seq<Seq<char>> {
    let st = words_state(s);
    if st.1.len() > 0 {
        st.0.push(st.1)
    } else {
        st.0
    }
}

/// The non-empty runs of non-white-space characters of `s`.
pub fn split_whitespace(s: &str) -> (r: Vec<String>)
    ensures
        strings_view(r@) == split_words(s@),
{
    let c = chars_of(s);
    let n = c.len();
    let mut done: Vec<String> = Vec::new();
    let mut start: usize = 0;
    let mut i: usize = 0;
    assert(s@.subrange(0, 0) =~= Seq::<char>::empty());
    assert(strings_view(done@) =~= Seq::<Seq<char>>::empty());
    while i < n
        invariant
            c@ == s@,
            n == s@.len(),
            start <= i <= n,
            words_state(s@.subrange(0, i as int)) == (strings_view(done@), s@.subrange(
                start as int,
                i as int,
            )),
        decreases n - i,
    {
        assert(s@.subrange(0, i + 1).drop_last() =~= s@.subrange(0, i as int));
        if is_whitespace(c[i]) {
            if start < i {
                let piece = substring(s, start, i);
                let ghost before = done@;
                done.push(piece);
                assert(strings_view(done@) =~= strings_view(before).push(s@.subrange(start as int, i as int)));
            }
            start = i + 1;
            assert(s@.subrange(start as int, i + 1) =~= Seq::<char>::empty());
        } else {
            assert(s@.subrange(start as int, i + 1) =~= s@.subrange(start as int, i as int).push(
                s@[i as int],
            ));
        }
        i = i + 1;
    }
    assert(s@.subrange(0, n as int) =~= s@);
    if start < n {
        let last = substring(s, start, n);
        let ghost before = done@;
        done.push(last);
        assert(strings_view(done@) =~= strings_view(before).push(s@.subrange(start as int, n as int)));
    }
    done
}

/// Whether `c` is an ASCII decimal digit.
pub open spec fn is_digit(c: char) -> bool {
    '0' <= c <= '9'
}

/// The value of a run of decimal digits.
pub open spec fn digits_value(s: Seq<char>) -> int
    decreases s.len(),
{
    if s.len() == 0 {
        0
    } else {
        digits_value(s.drop_last()) * 10 + (s.last() as int - '0' as int)
    }
}

/// The digits of a number, after an optional sign.
pub open spec fn unsigned_part(s: Seq<char>) -> Seq<char> {
    if s.len() > 0 && (s[0] == '-' || s[0] == '+') {
        s.subrange(1, s.len() as int)
    } else {
        s
    }
}

/// The 32-bit integer that `s` spells: an optional sign and at least one
/// digit, nothing else, within range; none otherwise.
pub open spec fn int_of(s: Seq<char>) -> Option<i32> {
    let body = unsigned_part(s);
    if body.len() == 0 || exists|i: int| 0 <= i < body.len() && !is_digit(#[trigger] body[i]) {
        None
    } else {
        let v = if s[0] == '-' {
            -digits_value(body)
        } else {
            digits_value(body)
        };
        if i32::MIN <= v <= i32::MAX {
            Some(v as i32)
        } else {
            None
        }
    }
}

proof fn lemma_digits_grow(s: Seq<char>, j: int, k: int)
    requires
        0 <= j <= k <= s.len(),
        forall|i: int| 0 <= i < s.len() ==> is_digit(#[trigger] s[i]),
    ensures
        0 <= digits_value(s.subrange(0, j)) <= digits_value(s.subrange(0, k)),
    decreases k,
{
    if k > 0 {
        assert(s.subrange(0, k).drop_last() =~= s.subrange(0, k - 1));
        lemma_digits_grow(s, k - 1, k - 1);
        assert(is_digit(s[k - 1]));
        if j < k {
            lemma_digits_grow(s, j, k - 1);
        }
    } else {
        assert(s.subrange(0, 0) =~= Seq::<char>::empty());
    }
}

/// Reads `s` as a 32-bit integer.
pub fn parse_int(s: &str) -> (r: Option<i32>)
    ensures
        r == int_of(s@),
{
    let c = chars_of(s);
    let n = c.len();
    let ghost body = unsigned_part(s@);
    let mut i: usize = 0;
    let neg = n > 0 && c[0] == '-';
    if n > 0 && (c[0] == '-' || c[0] == '+') {
        i = 1;
    }
    let first = i;
    if first == n {
        return None;
    }
    assert(body =~= s@.subrange(first as int, n as int));
    let mut k: usize = first;
    while k < n
        invariant
            c@ == s@,
            n == s@.len(),
            first <= k <= n,
            body == unsigned_part(s@),
            neg == (s@.len() > 0 && s@[0] == '-'),
            body == s@.subrange(first as int, n as int),
            forall|m: int| 0 <= m < k - first ==> is_digit(#[trigger] body[m]),
        decreases n - k,
    {
        if !(c[k] >= '0' && c[k] <= '9') {
            assert(!is_digit(body[k - first]));
            return None;
        }
        k = k + 1;
    }
    let mut acc: i64 = 0;
    let mut k: usize = first;
    assert(body.subrange(0, 0) =~= Seq::<char>::empty());
    while k < n
        invariant
            c@ == s@,
            n == s@.len(),
            first <= k <= n,
            body == unsigned_part(s@),
            neg == (s@.len() > 0 && s@[0] == '-'),
            body == s@.subrange(first as int, n as int),
            forall|m: int| 0 <= m < body.len() ==> is_digit(#[trigger] body[m]),
            acc as int == digits_value(body.subrange(0, k - first)),
            0 <= acc <= 2147483648,
        decreases n - k,
    {
        assert(body.subrange(0, k + 1 - first).drop_last() =~= body.subrange(0, k - first));
        assert(is_digit(body[k - first]));
        let next = acc * 10 + (c[k] as u32 - '0' as u32) as i64;
        if next > 2147483648 {
            proof {
                lemma_digits_grow(body, k + 1 - first, body.len() as int);
                assert(body.subrange(0, body.len() as int) =~= body);
            }
            return None;
        }
        acc = next;
        k = k + 1;
    }
    assert(body.subrange(0, n - first) =~= body);
    if neg {
        Some((-acc) as i32)
    } else if acc > 2147483647 {
        None
    } else {
        Some(acc as i32)
    }
}

/// Whether `s` opens with `c`.
pub fn starts_with_char(s: &str, c: char) -> (r: bool)
    ensures
        r == (s@.len() > 0 && s@[0] == c),
{
    let n = s.unicode_len();
    n > 0 && s.get_char(0) == c
}

/// Whether `c` occurs in `s`.
pub fn contains_char(s: &str, c: char) -> (r: bool)
    ensures
        r == s@.contains(c),
{
    let v = chars_of(s);
    let mut i: usize = 0;
    while i < v.len()
        invariant
            v@ == s@,
            i <= v@.len(),
            forall|j: int| 0 <= j < i ==> v@[j] != c,
        decreases v@.len() - i,
    {
        if v[i] == c {
            assert(s@[i as int] == c);
            return true;
        }
        i = i + 1;
    }
    false
}

} // verus!
