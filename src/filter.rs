//! Filters that keep or drop entries.
use crate::data::WordLibrary;
use crate::error::Error;
use vstd::prelude::*;

pub mod length;
pub mod rank;

verus! {

/// A filter that decides on each entry alone.
pub trait SingleFilter {
    /// Whether the entry is kept.
    fn is_keep(&self, word: &WordLibrary) -> bool;

    /// Copies of the kept entries, in order.
    fn filter(&self, words: &Vec<WordLibrary>) -> (r: Vec<WordLibrary>)
        ensures
            r@.len() <= words@.len(),
    {
        let mut r: Vec<WordLibrary> = Vec::new();
        let mut i: usize = 0;
        while i < words.len()
            invariant
                i <= words@.len(),
                r@.len() <= i,
            decreases words@.len() - i,
        {
            if self.is_keep(&words[i]) {
                r.push(words[i].copy());
            }
            i = i + 1;
        }
        r
    }
}

/// A filter that looks at the whole list at once.
pub trait BatchFilter {
    fn filter(&self, words: Vec<WordLibrary>) -> Result<Vec<WordLibrary>, Error>;
}

/// Which kinds of characters a conversion keeps or rewrites.
#[derive(Debug, Clone)]
pub struct FilterConfig {
    pub keep_number: bool,
    pub keep_english: bool,
    pub keep_space: bool,
    pub keep_punctuation: bool,
    pub full_width_to_half: bool,
    pub number_to_chinese: bool,
}

impl Default for FilterConfig {
    /// Keeps everything and rewrites nothing.
    fn default() -> (r: FilterConfig)
        ensures
            r.keep_number && r.keep_english && r.keep_space && r.keep_punctuation,
            !r.full_width_to_half && !r.number_to_chinese,
    {
        FilterConfig {
            keep_number: true,
            keep_english: true,
            keep_space: true,
            keep_punctuation: true,
            full_width_to_half: false,
            number_to_chinese: false,
        }
    }
}

} // verus!
