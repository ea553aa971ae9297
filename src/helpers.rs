//! Helpers shared by the code generators.
pub mod pinyin;
