//! Code generators fill in the codes of entries from their words.
use crate::data::{Code, CodeType, WordLibrary};
use crate::error::Error;
use vstd::prelude::*;

verus! {

/// Derives codes of one kind from text.
pub trait CodeGenerator {
    /// Fills in the codes of an entry.
    fn generate_code(&self, word: &mut WordLibrary) -> Result<(), Error>;

    /// The codes of a text.
    fn generate_code_for_string(&self, text: &str) -> Result<Code, Error>;

    /// The codes of one character.
    fn get_codes_for_char(&self, c: char) -> Result<Vec<String>, Error>;

    /// Whether a character may have several codes.
    fn is_multi_code_per_char(&self) -> bool;

    /// Whether each character has codes of its own.
    fn is_one_code_per_char(&self) -> bool;

    /// The kind of code generated.
    fn code_type(&self) -> CodeType;
}

} // verus!
