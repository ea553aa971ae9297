//! Records of the reference tables that code generators read.
use vstd::prelude::*;

verus! {

/// The pinyin of a whole word, syllables marked by apostrophes.
#[derive(Debug, Clone)]
pub struct WordPinyin {
    pub word: String,
    pub pinyin: String,
}

} // verus!
