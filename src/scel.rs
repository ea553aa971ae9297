//! Decoder for the binary cell-dictionary container: a fixed header with
//! descriptive text, a table from pinyin indices to syllables, and a run of
//! homophone groups, each naming its syllables by index.
use crate::data::{one_per_position, strings_view, Code, CodeType, WordLibrary};
use crate::error::Error;
use std::collections::HashMap;
use vstd::prelude::*;
use vstd::string::*;

verus! {

broadcast use vstd::std_specs::hash::group_hash_axioms;

/// Size of the fixed header; every file is at least this long.
pub const HEADER_SIZE: usize = 0x1540;

/// Decoding stops once this many entries have been produced.
pub const ENTRY_CAP: usize = 100000;

/// Where the declared word count is stored.
pub const WORD_COUNT_AT: usize = 0x124;

/// Where the dictionary's name begins; each text field ends where the next
/// one begins, the last at the end of the header.
pub const NAME_AT: usize = 0x130;

/// Where the category text begins.
pub const CATEGORY_AT: usize = 0x338;

/// Where the description text begins.
pub const DESCRIPTION_AT: usize = 0x540;

/// Where the example text begins.
pub const EXAMPLE_AT: usize = 0xd40;

/// The signature that opens every file of this format.
pub open spec fn magic() -> Seq<u8> {
    seq![0x40u8, 0x15u8, 0x00u8, 0x00u8, 0x44u8, 0x43u8, 0x53u8, 0x01u8, 0x01u8, 0x00u8, 0x00u8, 0x00u8]
}

/// The buffer holds the whole header and opens with the signature.
pub open spec fn header_valid(d: Seq<u8>) -> bool {
    d.len() >= HEADER_SIZE && d.subrange(0, 12) == magic()
}

/// The little-endian 16-bit integer at `at`.
pub open spec fn le16(d: Seq<u8>, at: int) -> int {
    d[at] + 256 * d[at + 1]
}

/// The little-endian 32-bit integer at `at`.
pub open spec fn le32(d: Seq<u8>, at: int) -> int {
    le16(d, at) + 65536 * le16(d, at + 2)
}

/// The bytes read as 16-bit little-endian code units; an odd last byte
/// reads as a zero unit.
pub open spec fn code_units(d: Seq<u8>) -> Seq<u16> {
    Seq::new(
        (d.len() / 2 + d.len() % 2) as nat,
        |i: int| if 2 * i + 1 < d.len() { le16(d, 2 * i) as u16 } else { 0u16 },
    )
}

/// The units before the first zero unit.
pub open spec fn until_zero(u: Seq<u16>) -> Seq<u16>
    decreases u.len(),
{
    if u.len() == 0 || u[0] == 0 {
        seq![]
    } else {
        seq![u[0]] + until_zero(u.subrange(1, u.len() as int))
    }
}

/// The text of the code units, invalid sequences replaced.
pub uninterp spec fn utf16_lossy(units: Seq<u16>) -> Seq<char>;

/// Relies on `String::from_utf16_lossy`: decodes UTF-16, replacing what is
/// invalid; the result depends on the units alone, and no units give no text.
#[verifier::external_body]
fn decode_utf16_lossy(units: &[u16]) -> (r: String)
    ensures
        r@ == utf16_lossy(units@),
        units@.len() == 0 ==> r@.len() == 0,
{
    String::from_utf16_lossy(units)
}

/// A zero-terminated text field: the units up to the first zero, decoded.
pub open spec fn terminated_text(d: Seq<u8>) -> Seq<char> {
    utf16_lossy(until_zero(code_units(d)))
}

/// The descriptive fields of a file and its declared word count.
#[derive(Debug, Clone)]
pub struct ScelInfo {
    pub name: String,
    pub category: String,
    pub description: String,
    pub example: String,
    pub word_count: u32,
}

impl View for ScelInfo {
    type V = (Seq<char>, Seq<char>, Seq<char>, Seq<char>, u32);

    open spec fn view(&self) -> Self::V {
        (self.name@, self.category@, self.description@, self.example@, self.word_count)
    }
}

/// What the header of `d` says about the file.
pub open spec fn info_of(d: Seq<u8>) -> (Seq<char>, Seq<char>, Seq<char>, Seq<char>, u32) {
    (
        terminated_text(d.subrange(NAME_AT as int, CATEGORY_AT as int)),
        terminated_text(d.subrange(CATEGORY_AT as int, DESCRIPTION_AT as int)),
        terminated_text(d.subrange(DESCRIPTION_AT as int, EXAMPLE_AT as int)),
        terminated_text(d.subrange(EXAMPLE_AT as int, HEADER_SIZE as int)),
        le32(d, WORD_COUNT_AT as int) as u32,
    )
}

/// Reads the little-endian 16-bit integer at `at`.
pub fn read_u16_le(data: &[u8], at: usize) -> (r: u16)
    requires
        at + 2 <= data@.len(),
    ensures
        r as int == le16(data@, at as int),
{
    data[at] as u16 + (data[at + 1] as u16) * 256
}

/// Reads the little-endian 32-bit integer at `at`.
pub fn read_u32_le(data: &[u8], at: usize) -> (r: u32)
    requires
        at + 4 <= data@.len(),
    ensures
        r as int == le32(data@, at as int),
{
    let n = data.len();
    assert(at + 2 <= n);
    let lo = read_u16_le(data, at);
    let hi = read_u16_le(data, at + 2);
    lo as u32 + (hi as u32) * 65536
}

/// Succeeds exactly when the buffer holds the whole header and opens with
/// the signature; otherwise reports a format mismatch.
pub fn validate_header(data: &[u8]) -> (r: Result<(), Error>)
    ensures
        r is Ok <==> header_valid(data@),
        r matches Err(e) ==> e is FormatMismatch,
{
    if data.len() < HEADER_SIZE {
        return Err(
            Error::FormatMismatch {
                expected: String::from_str("a cell dictionary of at least the header size"),
                actual: String::from_str("a shorter file"),
            },
        );
    }
    if !(data[0] == 0x40 && data[1] == 0x15 && data[2] == 0x00 && data[3] == 0x00 && data[4]
        == 0x44 && data[5] == 0x43 && data[6] == 0x53 && data[7] == 0x01 && data[8] == 0x01
        && data[9] == 0x00 && data[10] == 0x00 && data[11] == 0x00) {
        assert(data@.subrange(0, 12) != magic()) by {
            if data@.subrange(0, 12) == magic() {
                assert(data@[0] == data@.subrange(0, 12)[0]);
                assert(data@[1] == data@.subrange(0, 12)[1]);
                assert(data@[2] == data@.subrange(0, 12)[2]);
                assert(data@[3] == data@.subrange(0, 12)[3]);
                assert(data@[4] == data@.subrange(0, 12)[4]);
                assert(data@[5] == data@.subrange(0, 12)[5]);
                assert(data@[6] == data@.subrange(0, 12)[6]);
                assert(data@[7] == data@.subrange(0, 12)[7]);
                assert(data@[8] == data@.subrange(0, 12)[8]);
                assert(data@[9] == data@.subrange(0, 12)[9]);
                assert(data@[10] == data@.subrange(0, 12)[10]);
                assert(data@[11] == data@.subrange(0, 12)[11]);
            }
        };
        return Err(
            Error::FormatMismatch {
                expected: String::from_str("the cell dictionary signature"),
                actual: String::from_str("another signature"),
            },
        );
    }
    assert(data@.subrange(0, 12) =~= magic());
    Ok(())
}

/// Changing any one byte of the signature makes a header invalid.
pub proof fn lemma_changed_signature_rejected(d: Seq<u8>, i: int, b: u8)
    requires
        header_valid(d),
        0 <= i < 12,
        b != d[i],
    ensures
        !header_valid(d.update(i, b)),
{
    assert(d.update(i, b).subrange(0, 12)[i] != d.subrange(0, 12)[i]);
}

/// A buffer shorter than the header is never valid.
pub proof fn lemma_short_buffer_rejected(d: Seq<u8>)
    requires
        d.len() < HEADER_SIZE,
    ensures
        !header_valid(d),
{
}

proof fn lemma_until_zero(u: Seq<u16>, i: int)
    requires
        0 <= i <= u.len(),
        forall|j: int| 0 <= j < i ==> u[j] != 0,
        i == u.len() || u[i] == 0,
    ensures
        until_zero(u) == u.subrange(0, i),
    decreases i,
{
    if i == 0 {
        assert(u.subrange(0, 0) =~= Seq::<u16>::empty());
    } else {
        let rest = u.subrange(1, u.len() as int);
        lemma_until_zero(rest, i - 1);
        assert(u.subrange(0, i) =~= seq![u[0]] + rest.subrange(0, i - 1));
    }
}

/// Decodes the bytes from `start` to `end` as text that ends at the first
/// zero unit or at the end of the range.
fn read_terminated(data: &[u8], start: usize, end: usize) -> (r: String)
    requires
        start <= end <= data@.len(),
    ensures
        r@ == terminated_text(data@.subrange(start as int, end as int)),
{
    let ghost d = data@.subrange(start as int, end as int);
    let ghost u = code_units(d);
    let len = end - start;
    let n = len / 2 + len % 2;
    let mut units: Vec<u16> = Vec::new();
    let mut i: usize = 0;
    while i < n
        invariant
            start <= end <= data@.len(),
            d == data@.subrange(start as int, end as int),
            u == code_units(d),
            len == end - start,
            n == u.len(),
            i <= n,
            units@ == u.subrange(0, i as int),
            forall|j: int| 0 <= j < i ==> u[j] != 0,
        ensures
            i <= n,
            units@ == u.subrange(0, i as int),
            forall|j: int| 0 <= j < i ==> u[j] != 0,
            i == n || u[i as int] == 0,
        decreases n - i,
    {
        let unit = if 2 * i + 1 < len {
            read_u16_le(data, start + 2 * i)
        } else {
            0
        };
        assert(unit == u[i as int]);
        if unit == 0 {
            break;
        }
        units.push(unit);
        assert(units@ =~= u.subrange(0, i + 1));
        i = i + 1;
    }
    proof {
        lemma_until_zero(u, i as int);
    }
    decode_utf16_lossy(units.as_slice())
}

/// Decodes a zero-terminated UTF-16LE text field; this never fails.
pub fn read_utf16le_string(data: &[u8]) -> (r: Result<String, Error>)
    ensures
        r is Ok,
        r matches Ok(s) ==> s@ == terminated_text(data@),
{
    let s = read_terminated(data, 0, data.len());
    assert(data@.subrange(0, data@.len() as int) =~= data@);
    Ok(s)
}

/// Reads the descriptive fields of a file, after checking its header; the
/// rest of the buffer is not looked at.
pub fn parse_scel_info(data: &[u8]) -> (r: Result<ScelInfo, Error>)
    ensures
        r is Ok <==> header_valid(data@),
        r matches Err(e) ==> e is FormatMismatch,
        r matches Ok(info) ==> info@ == info_of(data@),
{
    validate_header(data)?;
    let word_count = read_u32_le(data, WORD_COUNT_AT);
    let name = read_terminated(data, NAME_AT, CATEGORY_AT);
    let category = read_terminated(data, CATEGORY_AT, DESCRIPTION_AT);
    let description = read_terminated(data, DESCRIPTION_AT, EXAMPLE_AT);
    let example = read_terminated(data, EXAMPLE_AT, HEADER_SIZE);
    Ok(ScelInfo { name, category, description, example, word_count })
}

/// The header's fields depend on the header bytes alone: two buffers that
/// agree on the header give the same outcome, whatever follows it.
pub proof fn lemma_info_reads_header_only(d1: Seq<u8>, d2: Seq<u8>)
    requires
        d1.len() >= HEADER_SIZE,
        d2.len() >= HEADER_SIZE,
        d1.subrange(0, HEADER_SIZE as int) == d2.subrange(0, HEADER_SIZE as int),
    ensures
        header_valid(d1) == header_valid(d2),
        info_of(d1) == info_of(d2),
{
    let h = HEADER_SIZE as int;
    assert forall|a: int, b: int| 0 <= a <= b <= h implies d1.subrange(a, b) == d2.subrange(
        a,
        b,
    ) by {
        assert(d1.subrange(a, b) =~= d1.subrange(0, h).subrange(a, b));
        assert(d2.subrange(a, b) =~= d2.subrange(0, h).subrange(a, b));
    };
    assert(d1[WORD_COUNT_AT as int] == d1.subrange(0, h)[WORD_COUNT_AT as int]);
    assert(d1[WORD_COUNT_AT + 1] == d1.subrange(0, h)[WORD_COUNT_AT + 1]);
    assert(d1[WORD_COUNT_AT + 2] == d1.subrange(0, h)[WORD_COUNT_AT + 2]);
    assert(d1[WORD_COUNT_AT + 3] == d1.subrange(0, h)[WORD_COUNT_AT + 3]);
    assert(d2[WORD_COUNT_AT as int] == d2.subrange(0, h)[WORD_COUNT_AT as int]);
    assert(d2[WORD_COUNT_AT + 1] == d2.subrange(0, h)[WORD_COUNT_AT + 1]);
    assert(d2[WORD_COUNT_AT + 2] == d2.subrange(0, h)[WORD_COUNT_AT + 2]);
    assert(d2[WORD_COUNT_AT + 3] == d2.subrange(0, h)[WORD_COUNT_AT + 3]);
}

/// The text of a table record: `n` units starting at `at`, decoded.
pub open spec fn units_text(d: Seq<u8>, at: int, n: int) -> Seq<char> {
    utf16_lossy(code_units(d.subrange(at, at + 2 * n)))
}

/// The table built by reading records from `off` on into `t`. Reading stops
/// at a record whose index is zero, when fewer than four bytes remain, or
/// when a record's text would run past the end; a later record for an index
/// replaces an earlier one.
pub open spec fn table_from(d: Seq<u8>, off: int, t: Map<u16, Seq<char>>) -> Map<u16, Seq<char>>
    decreases d.len() - off,
{
    if off < 0 || off + 4 > d.len() {
        t
    } else {
        let idx = le16(d, off);
        let n = le16(d, off + 2);
        if idx == 0 || off + 4 + 2 * n > d.len() {
            t
        } else {
            table_from(d, off + 4 + 2 * n, t.insert(idx as u16, units_text(d, off + 4, n)))
        }
    }
}

/// The pinyin table of a file, read from the end of the header on.
pub open spec fn pinyin_table(d: Seq<u8>) -> Map<u16, Seq<char>> {
    table_from(d, HEADER_SIZE as int, Map::empty())
}

/// What a table holds, as character sequences.
pub open spec fn table_view(m: Map<u16, String>) -> Map<u16, Seq<char>> {
    m.map_values(|s: String| s@)
}

/// Decodes `n` code units starting at `at`.
fn read_units(data: &[u8], at: usize, n: usize) -> (r: String)
    requires
        at + 2 * n <= data@.len(),
    ensures
        r@ == units_text(data@, at as int, n as int),
{
    let ghost u = code_units(data@.subrange(at as int, at + 2 * n));
    let len = data.len();
    let mut units: Vec<u16> = Vec::new();
    let mut i: usize = 0;
    while i < n
        invariant
            len == data@.len(),
            at + 2 * n <= data@.len(),
            u == code_units(data@.subrange(at as int, at + 2 * n)),
            u.len() == n,
            i <= n,
            units@ == u.subrange(0, i as int),
        decreases n - i,
    {
        let unit = read_u16_le(data, at + 2 * i);
        units.push(unit);
        assert(units@ =~= u.subrange(0, i + 1));
        i = i + 1;
    }
    assert(units@ =~= u);
    decode_utf16_lossy(units.as_slice())
}

/// Reads the pinyin table that follows the header. Malformed or truncated
/// records end the table; they are never an error.
pub fn parse_pinyin_table(data: &[u8]) -> (r: HashMap<u16, String>)
    ensures
        table_view(r@) == pinyin_table(data@),
{
    let mut table: HashMap<u16, String> = HashMap::new();
    let len = data.len();
    let mut off: usize = HEADER_SIZE;
    assert(table_view(table@) =~= Map::<u16, Seq<char>>::empty());
    while off <= len && len - off >= 4
        invariant
            len == data@.len(),
            table_from(data@, off as int, table_view(table@)) == pinyin_table(data@),
        decreases len - off,
    {
        let idx = read_u16_le(data, off);
        let n = read_u16_le(data, off + 2) as usize;
        if idx == 0 || len - off - 4 < 2 * n {
            return table;
        }
        let text = read_units(data, off + 4, n);
        let ghost before = table_view(table@);
        table.insert(idx, text);
        assert(table_view(table@) =~= before.insert(idx, units_text(data@, off + 4, n as int)));
        off = off + 4 + 2 * n;
    }
    table
}

/// A record whose index is zero ends the table there, whatever follows.
pub proof fn lemma_zero_index_ends_table(d: Seq<u8>, off: int, t: Map<u16, Seq<char>>)
    requires
        0 <= off,
        off + 4 <= d.len(),
        le16(d, off) == 0,
    ensures
        table_from(d, off, t) == t,
{
}

/// A record cut short by the end of the buffer ends the table and keeps
/// every entry read before it.
pub proof fn lemma_truncated_record_ends_table(d: Seq<u8>, off: int, t: Map<u16, Seq<char>>)
    requires
        0 <= off,
        off + 4 > d.len() || off + 4 + 2 * le16(d, off + 2) > d.len(),
    ensures
        table_from(d, off, t) == t,
{
}

/// The two little-endian bytes of `x`.
pub open spec fn le_bytes(x: u16) -> Seq<u8> {
    seq![(x % 256) as u8, (x / 256) as u8]
}

/// Code units written as little-endian bytes.
pub open spec fn units_bytes(u: Seq<u16>) -> Seq<u8>
    decreases u.len(),
{
    if u.len() == 0 {
        seq![]
    } else {
        units_bytes(u.drop_last()) + le_bytes(u.last())
    }
}

/// A table record: its index, its length in units, and its units.
pub open spec fn record_bytes(x: u16, u: Seq<u16>) -> Seq<u8> {
    le_bytes(x) + le_bytes(u.len() as u16) + units_bytes(u)
}

/// Table records one after another.
pub open spec fn records_bytes(rs: Seq<(u16, Seq<u16>)>) -> Seq<u8>
    decreases rs.len(),
{
    if rs.len() == 0 {
        seq![]
    } else {
        record_bytes(rs[0].0, rs[0].1) + records_bytes(rs.drop_first())
    }
}

/// `t` with each record's index mapped to its text, in order.
pub open spec fn insert_all(t: Map<u16, Seq<char>>, rs: Seq<(u16, Seq<u16>)>) -> Map<
    u16,
    Seq<char>,
>
    decreases rs.len(),
{
    if rs.len() == 0 {
        t
    } else {
        insert_all(t.insert(rs[0].0, utf16_lossy(rs[0].1)), rs.drop_first())
    }
}

proof fn lemma_le_bytes(x: u16)
    ensures
        le_bytes(x)[0] + 256 * le_bytes(x)[1] == x,
{
    assert((x % 256) + 256 * (x / 256) == x) by (nonlinear_arith);
}

proof fn lemma_units_bytes(u: Seq<u16>)
    ensures
        units_bytes(u).len() == 2 * u.len(),
        code_units(units_bytes(u)) == u,
    decreases u.len(),
{
    if u.len() > 0 {
        let p = u.drop_last();
        lemma_units_bytes(p);
        lemma_le_bytes(u.last());
        let b = units_bytes(u);
        assert(b =~= units_bytes(p) + le_bytes(u.last()));
        assert forall|i: int| 0 <= i < u.len() implies #[trigger] code_units(b)[i] == u[i] by {
            if i < p.len() {
                assert(b[2 * i] == units_bytes(p)[2 * i]);
                assert(b[2 * i + 1] == units_bytes(p)[2 * i + 1]);
                assert(code_units(units_bytes(p))[i] == p[i]);
            } else {
                assert(b[2 * i] == le_bytes(u.last())[0]);
                assert(b[2 * i + 1] == le_bytes(u.last())[1]);
            }
        };
        assert(code_units(b) =~= u);
    } else {
        assert(code_units(units_bytes(u)) =~= u);
    }
}

/// Records with non-zero indices followed by a zero index give exactly the
/// table of those records, inserted in order; nothing after the zero index
/// is read.
pub proof fn lemma_records_then_zero_index(
    d: Seq<u8>,
    off: int,
    t: Map<u16, Seq<char>>,
    rs: Seq<(u16, Seq<u16>)>,
)
    requires
        0 <= off,
        off + records_bytes(rs).len() + 2 <= d.len(),
        d.subrange(off, off + records_bytes(rs).len() + 2) == records_bytes(rs) + seq![0u8, 0u8],
        forall|j: int| 0 <= j < rs.len() ==> (#[trigger] rs[j]).0 != 0 && rs[j].1.len() < 65536,
    ensures
        table_from(d, off, t) == insert_all(t, rs),
    decreases rs.len(),
{
    let whole = records_bytes(rs).len();
    if rs.len() == 0 {
        assert(d[off] == d.subrange(off, off + 2)[0]);
        assert(d[off + 1] == d.subrange(off, off + 2)[1]);
        if off + 4 <= d.len() {
            lemma_zero_index_ends_table(d, off, t);
        }
    } else {
        let x = rs[0].0;
        let u = rs[0].1;
        let rest = rs.drop_first();
        lemma_units_bytes(u);
        lemma_le_bytes(x);
        lemma_le_bytes(u.len() as u16);
        let rb = record_bytes(x, u);
        let n = u.len() as int;
        assert(records_bytes(rs) == rb + records_bytes(rest));
        let sub = d.subrange(off, off + whole + 2);
        assert(sub =~= rb + (records_bytes(rest) + seq![0u8, 0u8]));
        assert(rb.len() == 4 + 2 * n);
        assert(d[off] == sub[0] && d[off + 1] == sub[1]);
        assert(d[off + 2] == sub[2] && d[off + 3] == sub[3]);
        assert(le16(d, off) == x);
        assert((u.len() as u16) as int == n);
        assert(le16(d, off + 2) == n);
        assert(d.subrange(off + 4, off + 4 + 2 * n) =~= units_bytes(u)) by {
            assert forall|k: int| 0 <= k < 2 * n implies d.subrange(off + 4, off + 4 + 2 * n)[k]
                == units_bytes(u)[k] by {
                assert(d[off + 4 + k] == sub[4 + k]);
                assert(sub[4 + k] == rb[4 + k]);
            };
        };
        assert(units_text(d, off + 4, n) == utf16_lossy(u));
        let next = off + 4 + 2 * n;
        assert(d.subrange(next, next + records_bytes(rest).len() + 2) =~= records_bytes(rest)
            + seq![0u8, 0u8]) by {
            assert forall|k: int| 0 <= k < records_bytes(rest).len() + 2 implies d.subrange(
                next,
                next + records_bytes(rest).len() + 2,
            )[k] == (records_bytes(rest) + seq![0u8, 0u8])[k] by {
                assert(d[next + k] == sub[rb.len() + k]);
            };
        };
        assert forall|j: int| 0 <= j < rest.len() implies (#[trigger] rest[j]).0 != 0
            && rest[j].1.len() < 65536 by {
            assert(rest[j] == rs[j + 1]);
        };
        lemma_records_then_zero_index(d, next, t.insert(x, utf16_lossy(u)), rest);
    }
}

/// The four bytes at `i` look like the start of the dictionary section.
pub open spec fn section_window(d: Seq<u8>, i: int) -> bool {
    d[i] == 0 && d[i + 1] == 0 && d[i + 2] != 0 && d[i + 3] == 0
}

/// The first position from `i` on where such a window fits and matches.
pub open spec fn first_window_from(d: Seq<u8>, i: int) -> Option<int>
    decreases d.len() - i,
{
    if i < 0 || i + 4 > d.len() {
        None
    } else if section_window(d, i) {
        Some(i)
    } else {
        first_window_from(d, i + 1)
    }
}

/// Where the dictionary section is taken to begin: the first matching window
/// from the end of the header on.
pub open spec fn dict_start(d: Seq<u8>) -> Option<int> {
    first_window_from(d, HEADER_SIZE as int)
}

/// Finds where the dictionary section begins by scanning for the first
/// window of the form zero, zero, non-zero, zero after the header. This is
/// a heuristic: text in the pinyin table can hold such a window too.
pub fn find_dict_start(data: &[u8]) -> (r: Result<usize, Error>)
    ensures
        r is Ok <==> dict_start(data@) is Some,
        r matches Ok(i) ==> dict_start(data@) == Some(i as int),
        r matches Err(e) ==> e is Parse,
{
    let len = data.len();
    let mut i: usize = HEADER_SIZE;
    while i <= len && len - i >= 4
        invariant
            len == data@.len(),
            first_window_from(data@, i as int) == dict_start(data@),
        decreases len - i,
    {
        if data[i] == 0 && data[i + 1] == 0 && data[i + 2] != 0 && data[i + 3] == 0 {
            return Ok(i);
        }
        i = i + 1;
    }
    Err(Error::Parse(String::from_str("could not find the dictionary section")))
}

/// A decoded entry: its word and its codes.
pub type EntryView = (Seq<char>, Seq<Seq<Seq<char>>>);

/// The syllables named by the first `k` indices stored from `at` on;
/// indices that the table does not hold are left out.
pub open spec fn pinyin_parts(d: Seq<u8>, at: int, k: nat, t: Map<u16, Seq<char>>) -> Seq<Seq<char>>
    decreases k,
{
    if k == 0 {
        seq![]
    } else {
        let prev = pinyin_parts(d, at, (k - 1) as nat, t);
        let idx = le16(d, at + 2 * (k - 1)) as u16;
        if t.contains_key(idx) {
            prev.push(t[idx])
        } else {
            prev
        }
    }
}

/// Where `count` word records that start at `at` end, each a length, its
/// text, an extension length and the extension; none when a record runs
/// past the end of the buffer.
pub open spec fn words_end(d: Seq<u8>, at: int, count: nat) -> Option<int>
    decreases count,
{
    if count == 0 {
        Some(at)
    } else if at + 2 > d.len() {
        None
    } else {
        let ext_at = at + 2 + 2 * le16(d, at);
        if ext_at + 2 > d.len() {
            None
        } else {
            let next = ext_at + 2 + 2 * le16(d, ext_at);
            if next > d.len() {
                None
            } else {
                words_end(d, next, (count - 1) as nat)
            }
        }
    }
}

/// The homophone group at `off`: where it ends, and the entry it gives (its
/// first word with the syllables of the group), none for a group without
/// words; none at all when the group runs past the end of the buffer.
pub open spec fn entry_at(d: Seq<u8>, off: int, t: Map<u16, Seq<char>>) -> Option<
    (int, Option<EntryView>),
> {
    if off < 0 || off + 4 > d.len() {
        None
    } else {
        let count = le16(d, off);
        let n = le16(d, off + 2);
        let words_at = off + 4 + 2 * n;
        if words_at > d.len() {
            None
        } else {
            match words_end(d, words_at, count as nat) {
                None => None,
                Some(end) => Some(
                    (
                        end,
                        if count == 0 {
                            None
                        } else {
                            Some(
                                (
                                    units_text(d, words_at + 2, le16(d, words_at)),
                                    one_per_position(pinyin_parts(d, off + 4, n as nat, t)),
                                ),
                            )
                        },
                    ),
                ),
            }
        }
    }
}

proof fn lemma_words_end_bounds(d: Seq<u8>, at: int, count: nat)
    requires
        0 <= at,
    ensures
        words_end(d, at, count) matches Some(e) ==> at <= e <= d.len() || (count == 0 && e
            == at),
    decreases count,
{
    if count > 0 && at + 2 <= d.len() {
        let ext_at = at + 2 + 2 * le16(d, at);
        if ext_at + 2 <= d.len() {
            let next = ext_at + 2 + 2 * le16(d, ext_at);
            if next <= d.len() {
                lemma_words_end_bounds(d, next, (count - 1) as nat);
            }
        }
    }
}

proof fn lemma_entry_advances(d: Seq<u8>, off: int, t: Map<u16, Seq<char>>)
    ensures
        entry_at(d, off, t) matches Some(p) ==> off + 4 <= p.0 <= d.len(),
{
    if 0 <= off && off + 4 <= d.len() {
        let words_at = off + 4 + 2 * le16(d, off + 2);
        lemma_words_end_bounds(d, words_at, le16(d, off) as nat);
    }
}

/// `acc` followed by the entry, if there is one.
pub open spec fn with_entry(acc: Seq<EntryView>, e: Option<EntryView>) -> Seq<EntryView> {
    match e {
        Some(x) => acc.push(x),
        None => acc,
    }
}

/// The entries decoded from `off` on, after those already in `acc`. A group
/// that cannot be read is passed over by moving on one byte; decoding ends
/// at the end of the buffer or once the cap is reached.
pub open spec fn decode_from(
    d: Seq<u8>,
    off: int,
    t: Map<u16, Seq<char>>,
    acc: Seq<EntryView>,
) -> Seq<EntryView>
    decreases d.len() - off,
    via decode_from_decreases
{
    if off < 0 || off >= d.len() || acc.len() >= ENTRY_CAP {
        acc
    } else {
        match entry_at(d, off, t) {
            None => decode_from(d, off + 1, t, acc),
            Some(p) => decode_from(d, p.0, t, with_entry(acc, p.1)),
        }
    }
}

#[via_fn]
proof fn decode_from_decreases(
    d: Seq<u8>,
    off: int,
    t: Map<u16, Seq<char>>,
    acc: Seq<EntryView>,
) {
    lemma_entry_advances(d, off, t);
}

/// What an entry holds.
pub open spec fn record_view(w: WordLibrary) -> EntryView {
    (w.word@, w.codes@)
}

/// What a list of entries holds.
pub open spec fn records_view(s: Seq<WordLibrary>) -> Seq<EntryView> {
    s.map_values(|w: WordLibrary| record_view(w))
}

/// A decoded entry is of pinyin kind, with rank zero.
pub open spec fn decoded_shape(w: WordLibrary) -> bool {
    w.code_type == CodeType::Pinyin && w.rank == 0 && !w.is_english
}

/// The executable result of decoding one group agrees with `entry_at`.
pub open spec fn entry_agrees(
    r: Option<(usize, Option<WordLibrary>)>,
    s: Option<(int, Option<EntryView>)>,
) -> bool {
    match (r, s) {
        (None, None) => true,
        (Some((end, w)), Some((e, v))) => end as int == e && match (w, v) {
            (None, None) => true,
            (Some(wl), Some(x)) => record_view(wl) == x && decoded_shape(wl),
            _ => false,
        },
        _ => false,
    }
}

/// Decodes the homophone group at `off`: where it ends and the entry it
/// gives, or `None` when it runs past the end of the buffer.
pub fn parse_dict_entry(data: &[u8], off: usize, table: &HashMap<u16, String>) -> (r: Option<
    (usize, Option<WordLibrary>),
>)
    ensures
        entry_agrees(r, entry_at(data@, off as int, table_view(table@))),
{
    let ghost d = data@;
    let ghost t = table_view(table@);
    let len = data.len();
    if off > len || len - off < 4 {
        return None;
    }
    let count = read_u16_le(data, off) as usize;
    let n = read_u16_le(data, off + 2) as usize;
    if len - off - 4 < 2 * n {
        return None;
    }
    let words_at = off + 4 + 2 * n;
    let mut parts: Vec<String> = Vec::new();
    let mut k: usize = 0;
    while k < n
        invariant
            len == d.len(),
            d == data@,
            t == table_view(table@),
            words_at == off + 4 + 2 * n <= len,
            k <= n,
            strings_view(parts@) == pinyin_parts(d, off + 4, k as nat, t),
        decreases n - k,
    {
        let idx = read_u16_le(data, off + 4 + 2 * k);
        let ghost before = parts@;
        match table.get(&idx) {
            Some(py) => {
                parts.push(py.clone());
                assert(strings_view(parts@) =~= strings_view(before).push(t[idx]));
            },
            None => {},
        }
        k = k + 1;
    }
    let mut first: Option<String> = None;
    let mut pos = words_at;
    let mut j: usize = 0;
    while j < count
        invariant
            len == d.len(),
            d == data@,
            t == table_view(table@),
            off + 4 <= len,
            count as int == le16(d, off as int),
            n as int == le16(d, off + 2),
            words_at == off + 4 + 2 * n,
            words_at <= pos <= len,
            j <= count,
            words_end(d, pos as int, (count - j) as nat) == words_end(d, words_at as int, count as nat),
            j == 0 ==> first is None && pos == words_at,
            j > 0 ==> (first matches Some(w) && w@ == units_text(
                d,
                words_at + 2,
                le16(d, words_at as int),
            )),
        decreases count - j,
    {
        if len - pos < 2 {
            assert(words_end(d, pos as int, (count - j) as nat) is None);
            return None;
        }
        let wl = read_u16_le(data, pos) as usize;
        if len - pos - 2 < 2 * wl + 2 {
            assert(words_end(d, pos as int, (count - j) as nat) is None);
            return None;
        }
        let ext_at = pos + 2 + 2 * wl;
        if j == 0 {
            first = Some(read_units(data, pos + 2, wl));
        }
        let el = read_u16_le(data, ext_at) as usize;
        if len - ext_at - 2 < 2 * el {
            assert(words_end(d, pos as int, (count - j) as nat) is None);
            return None;
        }
        pos = ext_at + 2 + 2 * el;
        j = j + 1;
    }
    match first {
        None => Some((pos, None)),
        Some(word) => {
            let mut w = WordLibrary::new(word);
            w.code_type = CodeType::Pinyin;
            w.codes = Code::from_char_list(parts);
            Some((pos, Some(w)))
        },
    }
}

/// What the decoder does after a group has been looked at.
#[derive(Debug, Clone, Copy, PartialEq, Eq, Structural)]
pub enum DecodeStep {
    /// Go on with the group that starts at this offset.
    Continue(usize),
    /// The group could not be read: move on one byte and try again.
    SkipAndRetry,
    /// Stop: the cap is reached or the buffer is used up.
    Abort,
}

/// The step after the group at `off`, given how many entries have been
/// produced and where the group ended (none when it could not be read).
pub open spec fn step_after(len: int, off: int, produced: int, end: Option<int>) -> DecodeStep {
    if produced >= ENTRY_CAP {
        DecodeStep::Abort
    } else {
        match end {
            None => if off + 1 >= len {
                DecodeStep::Abort
            } else {
                DecodeStep::SkipAndRetry
            },
            Some(e) => if e >= len {
                DecodeStep::Abort
            } else {
                DecodeStep::Continue(e as usize)
            },
        }
    }
}

/// Decides what the decoder does after the group at `off`: the resync and
/// cap policy, apart from the reading of groups.
pub fn decode_step(len: usize, off: usize, produced: usize, end: Option<usize>) -> (r: DecodeStep)
    ensures
        r == step_after(len as int, off as int, produced as int, match end {
            Some(e) => Some(e as int),
            None => None,
        }),
{
    if produced >= ENTRY_CAP {
        DecodeStep::Abort
    } else {
        match end {
            None => if off >= len || len - off <= 1 {
                DecodeStep::Abort
            } else {
                DecodeStep::SkipAndRetry
            },
            Some(e) => if e >= len {
                DecodeStep::Abort
            } else {
                DecodeStep::Continue(e)
            },
        }
    }
}

/// Decodes the dictionary section that starts at `start`, skipping what
/// cannot be read one byte at a time, up to the entry cap.
pub fn parse_dictionary(data: &[u8], start: usize, table: &HashMap<u16, String>) -> (r: Vec<
    WordLibrary,
>)
    ensures
        records_view(r@) == decode_from(data@, start as int, table_view(table@), seq![]),
        forall|i: int| 0 <= i < r@.len() ==> decoded_shape(#[trigger] r@[i]),
        r@.len() <= ENTRY_CAP,
{
    let ghost d = data@;
    let ghost t = table_view(table@);
    let len = data.len();
    let mut entries: Vec<WordLibrary> = Vec::new();
    assert(records_view(entries@) =~= Seq::<EntryView>::empty());
    if start >= len {
        return entries;
    }
    let mut off = start;
    loop
        invariant_except_break
            off < len,
            decode_from(d, off as int, t, records_view(entries@)) == decode_from(
                d,
                start as int,
                t,
                seq![],
            ),
            entries@.len() < ENTRY_CAP,
        invariant
            len == d.len(),
            d == data@,
            t == table_view(table@),
            forall|i: int| 0 <= i < entries@.len() ==> decoded_shape(#[trigger] entries@[i]),
        ensures
            decode_from(d, start as int, t, seq![]) == records_view(entries@),
            forall|i: int| 0 <= i < entries@.len() ==> decoded_shape(#[trigger] entries@[i]),
            entries@.len() <= ENTRY_CAP,
        decreases len - off,
    {
        proof {
            lemma_entry_advances(d, off as int, t);
        }
        let parsed = parse_dict_entry(data, off, table);
        let end = match &parsed {
            Some(p) => Some(p.0),
            None => None,
        };
        let ghost before = entries@;
        let ghost found = entry_at(d, off as int, t);
        match parsed {
            Some((_, Some(w))) => {
                entries.push(w);
                assert(records_view(entries@) =~= records_view(before).push(record_view(w)));
            },
            _ => {
                assert(records_view(entries@) =~= records_view(before));
            },
        }
        match decode_step(len, off, entries.len(), end) {
            DecodeStep::Abort => {
                proof {
                    let acc = records_view(before);
                    match found {
                        None => {
                            assert(records_view(entries@) == acc);
                            assert(decode_from(d, off + 1, t, acc) == acc);
                        },
                        Some(p) => {
                            assert(records_view(entries@) == with_entry(acc, p.1));
                            assert(decode_from(d, p.0, t, with_entry(acc, p.1)) == with_entry(
                                acc,
                                p.1,
                            ));
                        },
                    }
                }
                break ;
            },
            DecodeStep::SkipAndRetry => {
                off = off + 1;
            },
            DecodeStep::Continue(e) => {
                off = e;
            },
        }
    }
    entries
}

/// Decodes a whole file: checks the header, reads the pinyin table, finds
/// the dictionary section and decodes it.
pub fn parse_scel_file(data: &[u8]) -> (r: Result<Vec<WordLibrary>, Error>)
    ensures
        !header_valid(data@) ==> (r matches Err(e) && e is FormatMismatch),
        header_valid(data@) && dict_start(data@) is None ==> (r matches Err(e) && e is Parse),
        header_valid(data@) && dict_start(data@) is Some ==> (r matches Ok(v) && records_view(v@)
            == decode_from(data@, dict_start(data@)->0, pinyin_table(data@), seq![]) && forall|
            i: int,
        | 0 <= i < v@.len() ==> decoded_shape(#[trigger] v@[i])),
{
    validate_header(data)?;
    let table = parse_pinyin_table(data);
    let start = find_dict_start(data)?;
    Ok(parse_dictionary(data, start, &table))
}

/// A group that cannot be read is passed over by moving on exactly one byte.
pub proof fn lemma_unreadable_entry_skipped(
    d: Seq<u8>,
    off: int,
    t: Map<u16, Seq<char>>,
    acc: Seq<EntryView>,
)
    requires
        0 <= off < d.len(),
        acc.len() < ENTRY_CAP,
        entry_at(d, off, t) is None,
    ensures
        decode_from(d, off, t, acc) == decode_from(d, off + 1, t, acc),
{
}

/// Decoding never yields more entries than the cap, whatever the input.
pub proof fn lemma_decode_within_cap(
    d: Seq<u8>,
    off: int,
    t: Map<u16, Seq<char>>,
    acc: Seq<EntryView>,
)
    requires
        acc.len() <= ENTRY_CAP,
    ensures
        decode_from(d, off, t, acc).len() <= ENTRY_CAP,
    decreases d.len() - off,
{
    if !(off < 0 || off >= d.len() || acc.len() >= ENTRY_CAP) {
        lemma_entry_advances(d, off, t);
        match entry_at(d, off, t) {
            None => lemma_decode_within_cap(d, off + 1, t, acc),
            Some(p) => lemma_decode_within_cap(d, p.0, t, with_entry(acc, p.1)),
        }
    }
}

} // verus!
