//! What one copy run is asked to do.

use vstd::prelude::*;
use crate::offset::get_offset;
use crate::offset::offset_representable;
use crate::offset::resolved_offset;

verus! {

/// The two files of a run and the byte position at which each side starts.
#[derive(Clone, Debug)]
pub struct TransferRequest {
    /// Path of the dump to read.
    pub name_in: String,
    /// Path of the file to write.
    pub name_out: String,
    /// Where reading starts in the input.
    pub read_offset: u64,
    /// Where writing starts in the output.
    pub write_offset: u64,
}

impl TransferRequest {
    /// A request with both positions already resolved.
    pub fn new(
        name_in: String,
        name_out: String,
        read_offset: u64,
        write_offset: u64,
    ) -> (request: TransferRequest)
        ensures
            request.name_in@ == name_in@,
            request.name_out@ == name_out@,
            request.read_offset == read_offset,
            request.write_offset == write_offset,
    {
        TransferRequest { name_in, name_out, read_offset, write_offset }
    }

    /// Resolves the read side from its pair of options and the write side from
    /// its own; neither side bears on the other. There is no request where a
    /// resolved position does not fit in 64 bits.
    pub fn from_options(
        name_in: String,
        name_out: String,
        from_offset: Option<u64>,
        from_sector: Option<u64>,
        to_offset: Option<u64>,
        to_sector: Option<u64>,
    ) -> (request: Option<TransferRequest>)
        ensures
            request is Some <==> resolved_offset(from_offset, from_sector) <= u64::MAX
                && resolved_offset(to_offset, to_sector) <= u64::MAX,
            request matches Some(r) ==> {
                &&& r.name_in@ == name_in@
                &&& r.name_out@ == name_out@
                &&& r.read_offset == resolved_offset(from_offset, from_sector)
                &&& r.write_offset == resolved_offset(to_offset, to_sector)
            },
    {
        if !offset_representable(from_offset, from_sector) {
            return None;
        }
        if !offset_representable(to_offset, to_sector) {
            return None;
        }
        let read_offset = get_offset(from_offset, from_sector);
        let write_offset = get_offset(to_offset, to_sector);
        Some(TransferRequest { name_in, name_out, read_offset, write_offset })
    }
}

} // verus!
