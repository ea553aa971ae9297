//! Conversion between simplified and traditional characters.
use crate::error::Error;
use vstd::prelude::*;
use vstd::string::*;

verus! {

/// Which way words are converted.
#[derive(Debug, Clone, Copy, PartialEq, Eq, Structural)]
pub enum TranslationType {
    Unchanged,
    ToSimplified,
    ToTraditional,
}

/// Converts text between simplified and traditional characters.
pub trait ChineseConverter {
    fn to_simplified(&self, text: &str) -> Result<String, Error>;

    fn to_traditional(&self, text: &str) -> Result<String, Error>;
}

/// A converter without conversion tables: it hands text back unchanged.
pub struct OpenCCConverter {}

impl OpenCCConverter {
    pub fn new() -> (r: Result<OpenCCConverter, Error>)
        ensures
            r is Ok,
    {
        Ok(OpenCCConverter {  })
    }

    /// The text unchanged.
    pub fn same_text(&self, text: &str) -> (r: Result<String, Error>)
        ensures
            r matches Ok(s) && s@ == text@,
    {
        Ok(String::from_str(text))
    }
}

impl Default for OpenCCConverter {
    fn default() -> (r: OpenCCConverter) {
        OpenCCConverter {  }
    }
}

impl ChineseConverter for OpenCCConverter {
    fn to_simplified(&self, text: &str) -> (r: Result<String, Error>)
        ensures
            r matches Ok(s) && s@ == text@,
    {
        self.same_text(text)
    }

    fn to_traditional(&self, text: &str) -> (r: Result<String, Error>)
        ensures
            r matches Ok(s) && s@ == text@,
    {
        self.same_text(text)
    }
}

} // verus!
