//! Conversion of input-method word lists between dictionary formats.
//!
//! The shared record model lives in `data`; the binary cell-dictionary
//! decoder lives in `scel`; line-oriented text formats live in `import`
//! and `export`.

pub mod data;
pub mod error;
pub mod scel;
pub mod text;
pub mod import;
pub mod export;
pub mod filter;
pub mod generate;
pub mod helpers;
pub mod rank;
pub mod resource;
pub mod translate;

pub use data::{Code, CodeType, WordLibrary, WordLibraryList};
pub use error::Error;
