//! CRC32 of a message body, named for the contracts and computed by an
//! outside implementation.

use vstd::prelude::*;

verus! {

/// The CRC32 checksum of a byte string.
pub uninterp spec fn crc32_of(b: Seq<u8>) -> u32;

/// Relies on `crc32fast::hash`: the CRC32 checksum of a byte slice, a pure
/// function of the bytes alone.
#[verifier::external_body]
pub(crate) fn crc32(data: &Vec<u8>) -> (r: u32)
    ensures
        r == crc32_of(data@),
{
    crc32fast::hash(data.as_slice())
}

} // verus!
