//! Lookup of the pinyin readings of single characters.
use crate::data::strings_view;
use crate::text::chars_of;
use std::collections::HashMap;
use vstd::prelude::*;

verus! {

broadcast use vstd::std_specs::hash::group_hash_axioms;

/// Readings of characters, the usual reading first; keyed by code point.
pub struct PinyinHelper {
    pinyin_dict: HashMap<u32, Vec<String>>,
}

impl PinyinHelper {
    /// The readings of each character, keyed by code point.
    pub closed spec fn readings(&self) -> Map<u32, Vec<String>> {
        self.pinyin_dict@
    }

    /// A helper that knows no readings.
    pub fn new() -> (r: PinyinHelper)
        ensures
            r.readings() == Map::<u32, Vec<String>>::empty(),
    {
        PinyinHelper { pinyin_dict: HashMap::new() }
    }

    /// The first reading of `c`, if it has one.
    pub fn get_default_pinyin(&self, c: char) -> (r: Option<String>)
        ensures
            self.readings().contains_key(c as u32) && self.readings()[c as u32]@.len() > 0
                ==> (r matches Some(s) && s@ == self.readings()[c as u32]@[0]@),
            !(self.readings().contains_key(c as u32) && self.readings()[c as u32]@.len() > 0)
                ==> r is None,
    {
        match self.pinyin_dict.get(&(c as u32)) {
            Some(v) => {
                if v.len() > 0 {
                    Some(v[0].clone())
                } else {
                    None
                }
            },
            None => None,
        }
    }

    /// All readings of `c`, if it is known.
    pub fn get_all_pinyin(&self, c: char) -> (r: Option<&Vec<String>>)
        ensures
            r is Some <==> self.readings().contains_key(c as u32),
            r matches Some(v) ==> *v == self.readings()[c as u32],
    {
        self.pinyin_dict.get(&(c as u32))
    }

    /// Whether `c` has more than one reading.
    pub fn is_polyphonic(&self, c: char) -> (r: bool)
        ensures
            r == (self.readings().contains_key(c as u32) && self.readings()[c as u32]@.len() > 1),
    {
        match self.pinyin_dict.get(&(c as u32)) {
            Some(v) => v.len() > 1,
            None => false,
        }
    }

    /// Whether `pinyins` gives, for each character of `word` in order, one of
    /// its readings.
    pub fn validate_pinyin(&self, word: &str, pinyins: &[String]) -> (r: bool)
        ensures
            r == (word@.len() == pinyins@.len() && forall|i: int|
                0 <= i < word@.len() ==> self.readings().contains_key(#[trigger] word@[i] as u32)
                    && strings_view(self.readings()[word@[i] as u32]@).contains(pinyins@[i]@)),
    {
        let chars = chars_of(word);
        if chars.len() != pinyins.len() {
            return false;
        }
        let mut i: usize = 0;
        while i < chars.len()
            invariant
                chars@ == word@,
                chars@.len() == pinyins@.len(),
                i <= chars@.len(),
                forall|k: int|
                    0 <= k < i ==> self.readings().contains_key(#[trigger] word@[k] as u32)
                        && strings_view(self.readings()[word@[k] as u32]@).contains(pinyins@[k]@),
            decreases chars@.len() - i,
        {
            let valid = match self.pinyin_dict.get(&(chars[i] as u32)) {
                Some(v) => v,
                None => {
                    return false;
                },
            };
            let mut found = false;
            let mut j: usize = 0;
            while j < valid.len()
                invariant
                    i < pinyins@.len(),
                    j <= valid@.len(),
                    found ==> strings_view(valid@).contains(pinyins@[i as int]@),
                    !found ==> forall|m: int| 0 <= m < j ==> valid@[m]@ != pinyins@[i as int]@,
                decreases valid@.len() - j,
            {
                if valid[j] == pinyins[i] {
                    assert(strings_view(valid@)[j as int] == pinyins@[i as int]@);
                    found = true;
                }
                j = j + 1;
            }
            if !found {
                assert(!strings_view(valid@).contains(pinyins@[i as int]@)) by {
                    if strings_view(valid@).contains(pinyins@[i as int]@) {
                        let m = choose|m: int|
                            0 <= m < strings_view(valid@).len() && strings_view(valid@)[m]
                                == pinyins@[i as int]@;
                        assert(valid@[m]@ != pinyins@[i as int]@);
                    }
                };
                return false;
            }
            i = i + 1;
        }
        true
    }
}

impl Default for PinyinHelper {
    fn default() -> (r: PinyinHelper)
        ensures
            r.readings() == Map::<u32, Vec<String>>::empty(),
    {
        Self::new()
    }
}

} // verus!
