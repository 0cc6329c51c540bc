//! The checksum by which two files are told apart.
//!
//! It tells whether a file on the partition is stale. It is no proof of
//! integrity: where signing is in use, the signature is.

use vstd::prelude::*;

verus! {

/// The CRC-32/ISCSI (Castagnoli) checksum of `bytes`.
pub uninterp spec fn crc32_iscsi(bytes: Seq<u8>) -> u32;

/// Calls `crc::Crc::<u32>::new(&crc::CRC_32_ISCSI)` and `checksum` on the
/// bytes.
///
/// Trusted: the checksum depends on the bytes alone.
#[verifier::external_body]
pub(crate) fn castagnoli(bytes: &[u8]) -> (sum: u32)
    ensures
        sum == crc32_iscsi(bytes@),
{
    crc::Crc::<u32>::new(&crc::CRC_32_ISCSI).checksum(bytes)
}

/// The checksum of a file's contents.
pub fn checksum(bytes: &[u8]) -> (sum: u32)
    ensures
        sum == crc32_iscsi(bytes@),
{
    castagnoli(bytes)
}

} // verus!
