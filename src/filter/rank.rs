//! Keeps entries whose rank lies within bounds.
use crate::data::WordLibrary;
use crate::filter::SingleFilter;
use vstd::prelude::*;

verus! {

/// Keeps entries ranked from `min_rank` to `max_rank`.
pub struct RankFilter {
    pub min_rank: i32,
    pub max_rank: i32,
}

impl RankFilter {
    pub fn new(min_rank: i32, max_rank: i32) -> (r: RankFilter)
        ensures
            r.min_rank == min_rank,
            r.max_rank == max_rank,
    {
        RankFilter { min_rank, max_rank }
    }

    /// Whether the entry's rank lies within the bounds.
    pub fn keeps(&self, word: &WordLibrary) -> (r: bool)
        ensures
            r == (self.min_rank <= word.rank <= self.max_rank),
    {
        word.rank >= self.min_rank && word.rank <= self.max_rank
    }
}

impl Default for RankFilter {
    /// Every rank from zero up.
    fn default() -> (r: RankFilter)
        ensures
            r.min_rank == 0,
            r.max_rank == i32::MAX,
    {
        RankFilter { min_rank: 0, max_rank: i32::MAX }
    }
}

impl SingleFilter for RankFilter {
    fn is_keep(&self, word: &WordLibrary) -> (r: bool)
        ensures
            r == (self.min_rank <= word.rank <= self.max_rank),
    {
        self.keeps(word)
    }
}

} // verus!
