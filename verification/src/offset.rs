//! Resolution of a starting position from an explicit byte offset and a
//! sector number.

use vstd::prelude::*;
use crate::layout::PAYLOAD_SIZE;

verus! {

/// The byte position that an (offset, sector) pair of options stands for:
/// the explicit offset where there is one, else the sector number times
/// the payload size of a sector (spare bytes take no part in the stride),
/// else zero.
pub open spec fn resolved_offset(offset_opt: Option<u64>, sector_opt: Option<u64>) -> int {
    match (offset_opt, sector_opt) {
        (Some(offset), _) => offset as int,
        (None, Some(sector)) => sector * PAYLOAD_SIZE,
        (None, None) => 0,
    }
}

/// Whether the resolved position of the pair fits the 64-bit offsets that
/// files are addressed with.
pub fn offset_representable(offset_opt: Option<u64>, sector_opt: Option<u64>) -> (fits: bool)
    ensures
        fits == (resolved_offset(offset_opt, sector_opt) <= u64::MAX),
{
    let stride: u64 = PAYLOAD_SIZE as u64;
    match (offset_opt, sector_opt) {
        (None, Some(sector)) => sector <= u64::MAX / stride,
        _ => true,
    }
}

/// Resolves the pair to one absolute byte offset.
pub fn get_offset(offset_opt: Option<u64>, sector_opt: Option<u64>) -> (offset: u64)
    requires
        resolved_offset(offset_opt, sector_opt) <= u64::MAX,
    ensures
        offset == resolved_offset(offset_opt, sector_opt),
        offset_opt is Some ==> offset == offset_opt->0,
        offset_opt is None && sector_opt is Some ==> offset == sector_opt->0 * 512,
        offset_opt is None && sector_opt is None ==> offset == 0,
{
    if let Some(x) = offset_opt {
        return x;
    }
    if let Some(x) = sector_opt {
        return x * (PAYLOAD_SIZE as u64);
    }
    0
}

} // verus!
