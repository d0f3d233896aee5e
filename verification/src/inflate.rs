//! Decompression of zlib streams.

use miniz_oxide::inflate::{decompress_to_vec_zlib_with_limit, DecompressError};
use vstd::prelude::*;

verus! {

/// The error of `miniz_oxide`'s one-call decompression.
#[verifier::external_type_specification]
#[verifier::external_body]
pub struct ExDecompressError(DecompressError);

/// The most bytes that a stream is unpacked to. A vector of this length can
/// be asked for on every machine.
pub const MAX_INFLATED: usize = 0x7FFF_FFFF;

/// The bytes that a zlib stream unpacks to where they are no more than
/// `limit`; nothing where they are more, or where the bytes are no complete
/// zlib stream with a matching checksum.
pub uninterp spec fn zlib_inflated(data: Seq<u8>, limit: usize) -> Option<Seq<u8>>;

/// `miniz_oxide::inflate::decompress_to_vec_zlib_with_limit`: unpacks a
/// whole zlib stream into a new vector that grows to at most `limit` bytes.
/// What comes back depends on the input bytes and the limit alone, which is
/// all that the contract claims: success with the unpacked bytes, or failure.
#[verifier::external_body]
pub(crate) fn inflate_zlib(data: &[u8], limit: usize) -> (r: Result<Vec<u8>, DecompressError>)
    requires
        limit <= MAX_INFLATED,
    ensures
        match r {
            Ok(bytes) => zlib_inflated(data@, limit) == Some(bytes@),
            Err(_) => zlib_inflated(data@, limit) is None,
        },
{
    decompress_to_vec_zlib_with_limit(data, limit)
}

} // verus!
