//! Rank generators fill in the frequency of entries.
use crate::data::WordLibrary;
use crate::error::Error;
use vstd::prelude::*;

verus! {

/// Gives words a rank.
pub trait RankGenerator {
    /// The rank for a word.
    fn get_rank(&self, word: &str) -> Result<i32, Error>;

    /// Whether entries that already have a rank get a new one too.
    fn force_use(&self) -> bool {
        false
    }

    /// Sets the rank of an entry that has none (rank zero), or of every
    /// entry when `force_use` says so; the rest of the entry is left as it
    /// was, and so is the rank when the generator fails.
    fn generate_rank(&self, word: &mut WordLibrary) -> (r: Result<(), Error>)
        ensures
            final(word).word == old(word).word,
            final(word).code_type == old(word).code_type,
            final(word).codes == old(word).codes,
            final(word).is_english == old(word).is_english,
            r is Err ==> final(word).rank == old(word).rank,
    {
        if word.rank == 0 || self.force_use() {
            let rank = self.get_rank(word.word.as_str())?;
            word.rank = rank;
        }
        Ok(())
    }
}

/// Gives every word the same rank.
pub struct DefaultRankGenerator {
    pub default_rank: i32,
}

impl DefaultRankGenerator {
    pub fn new(default_rank: i32) -> (r: DefaultRankGenerator)
        ensures
            r.default_rank == default_rank,
    {
        DefaultRankGenerator { default_rank }
    }

    /// The fixed rank, whatever the word.
    pub fn rank_for(&self, word: &str) -> (r: Result<i32, Error>)
        ensures
            r matches Ok(v) && v == self.default_rank,
    {
        Ok(self.default_rank)
    }
}

impl Default for DefaultRankGenerator {
    /// Rank 100 for every word.
    fn default() -> (r: DefaultRankGenerator)
        ensures
            r.default_rank == 100,
    {
        DefaultRankGenerator { default_rank: 100 }
    }
}

impl RankGenerator for DefaultRankGenerator {
    fn get_rank(&self, word: &str) -> (r: Result<i32, Error>)
        ensures
            r matches Ok(v) && v == self.default_rank,
    {
        self.rank_for(word)
    }
}

} // verus!
