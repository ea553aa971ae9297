//! Keeps entries whose word length lies within bounds.
use crate::data::WordLibrary;
use crate::filter::SingleFilter;
use vstd::prelude::*;

verus! {

/// Keeps words of `min_length` to `max_length` characters.
pub struct LengthFilter {
    pub min_length: usize,
    pub max_length: usize,
}

impl LengthFilter {
    pub fn new(min_length: usize, max_length: usize) -> (r: LengthFilter)
        ensures
            r.min_length == min_length,
            r.max_length == max_length,
    {
        LengthFilter { min_length, max_length }
    }

    /// Whether the word's length lies within the bounds.
    pub fn keeps(&self, word: &WordLibrary) -> (r: bool)
        ensures
            r == (self.min_length <= word.word@.len() <= self.max_length),
    {
        let len = word.len();
        len >= self.min_length && len <= self.max_length
    }
}

impl Default for LengthFilter {
    /// Words of one to 9999 characters.
    fn default() -> (r: LengthFilter)
        ensures
            r.min_length == 1,
            r.max_length == 9999,
    {
        LengthFilter { min_length: 1, max_length: 9999 }
    }
}

impl SingleFilter for LengthFilter {
    fn is_keep(&self, word: &WordLibrary) -> (r: bool)
        ensures
            r == (self.min_length <= word.word@.len() <= self.max_length),
    {
        self.keeps(word)
    }
}

} // verus!
