//! The CRC-32 by which a boot stage is recognised.

use vstd::prelude::*;

verus! {

/// The CRC-32/ISO-HDLC check value of a byte string (polynomial `0x04C11DB7`,
/// reflected, initial value and final xor `0xFFFFFFFF`), as the `crc` crate
/// computes it. The library never looks inside it: it only compares the
/// value with the fingerprints it knows.
pub uninterp spec fn crc32(data: Seq<u8>) -> u32;

/// `Crc::<u32>::new(&CRC_32_ISO_HDLC).checksum(data)` of the `crc` crate.
/// The call reads `data` and nothing else, and returns for every input.
#[verifier::external_body]
pub(crate) fn crc32_iso_hdlc(data: &[u8]) -> (r: u32)
    ensures
        r == crc32(data@),
{
    crc::Crc::<u32>::new(&crc::CRC_32_ISO_HDLC).checksum(data)
}

} // verus!
