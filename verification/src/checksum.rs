//! The checksum that guards every chunk, computed by the `crc` crate.

use crc::{Crc, CRC_32_ISO_HDLC};
use vstd::prelude::*;

verus! {

/// The CRC-32/ISO-HDLC checksum of a byte string, as the `crc` crate computes
/// it. The library reasons about this value by name only: nothing here says
/// what the checksum of any particular bytes is.
pub uninterp spec fn crc32_iso_hdlc(bytes: Seq<u8>) -> u32;

/// Builds a `crc::Crc<u32>` for the catalogue entry `CRC_32_ISO_HDLC` with
/// `Crc::new` and runs `Crc::checksum` over `bytes`. Taken on trust, not
/// proved: the result is a function of the bytes alone, the value named
/// `crc32_iso_hdlc`. The contract claims nothing else of it.
#[verifier::external_body]
pub(crate) fn checksum(bytes: &[u8]) -> (sum: u32)
    ensures
        sum == crc32_iso_hdlc(bytes@),
{
    Crc::<u32>::new(&CRC_32_ISO_HDLC).checksum(bytes)
}

} // verus!
