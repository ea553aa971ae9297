use vstd::prelude::*;

verus! {

/// Declares `std::io::Error` so that I/O failures can travel inside [`Error`].
#[verifier::external_type_specification]
#[verifier::external_body]
pub struct ExIoError(std::io::Error);

/// Errors that conversion operations report.
#[derive(Debug)]
pub enum Error {
    Io(std::io::Error),
    Encoding(String),
    Parse(String),
    InvalidFormat(String),
    Unsupported(String),
    CharacterNotFound(char),
    InvalidCodeType,
    BinaryParse(String),
    Utf16Decode,
    FormatMismatch { expected: String, actual: String },
}

} // verus!
