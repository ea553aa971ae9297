//! Importer for the binary cell-dictionary format; the decoding itself is in
//! [`crate::scel`].
use crate::error::Error;
use crate::import::WordLibraryImport;
use crate::scel::{
    decode_from, decoded_shape, dict_start, header_valid, info_of, parse_scel_file, parse_scel_info,
    pinyin_table, records_view,
};
pub use crate::scel::ScelInfo;
use crate::WordLibrary;
use vstd::prelude::*;

verus! {

/// Importer for the binary cell-dictionary format.
pub struct SogouScelImport;

impl SogouScelImport {
    /// The descriptive fields of a file, without decoding its entries.
    pub fn read_info(data: &[u8]) -> (r: Result<ScelInfo, Error>)
        ensures
            r is Ok <==> header_valid(data@),
            r matches Err(e) ==> e is FormatMismatch,
            r matches Ok(info) ==> info@ == info_of(data@),
    {
        parse_scel_info(data)
    }
}

impl WordLibraryImport for SogouScelImport {
    fn import_bytes(&self, data: &[u8]) -> (r: Result<Vec<WordLibrary>, Error>)
        ensures
            !header_valid(data@) ==> (r matches Err(e) && e is FormatMismatch),
            header_valid(data@) && dict_start(data@) is None ==> (r matches Err(e) && e is Parse),
            header_valid(data@) && dict_start(data@) is Some ==> (r matches Ok(v) && records_view(
                v@,
            ) == decode_from(data@, dict_start(data@)->0, pinyin_table(data@), seq![]) && forall|
                i: int,
            | 0 <= i < v@.len() ==> decoded_shape(#[trigger] v@[i])),
    {
        parse_scel_file(data)
    }
}

} // verus!
