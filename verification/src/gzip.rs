//! Gzip-compressed text messages (the Huobi stream sends its messages this
//! way). Decompression is done by `flate2`.

use flate2::read::GzDecoder;
use std::io::Read;
use vstd::prelude::*;

verus! {

/// What decompressing `bytes` as gzip and reading the result as UTF-8 text
/// gives; `None` when either step fails.
pub uninterp spec fn gunzip_text(bytes: Seq<u8>) -> Option<Seq<char>>;

/// The text view of an optional string.
pub open spec fn string_view(s: Option<String>) -> Option<Seq<char>> {
    match s {
        Some(t) => Some(t@),
        None => None,
    }
}

/// Calls `flate2::read::GzDecoder::new` and its `read_to_string`. The
/// contract names the result; the gzip format is left unsaid.
#[verifier::external_body]
fn gunzip_to_string(bytes: &[u8]) -> (r: Option<String>)
    ensures
        string_view(r) == gunzip_text(bytes@),
{
    let mut decoded = String::new();
    match GzDecoder::new(bytes).read_to_string(&mut decoded) {
        Ok(_) => Some(decoded),
        Err(_) => None,
    }
}

/// The text of a gzip-compressed message; `None` when the bytes are not
/// gzip data or do not hold UTF-8 text.
pub fn decode_gzip_payload(bytes: &[u8]) -> (r: Option<String>)
    ensures
        string_view(r) == gunzip_text(bytes@),
{
    gunzip_to_string(bytes)
}

} // verus!
