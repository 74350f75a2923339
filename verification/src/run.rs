//! A whole run, carried out on byte images in place of files.

use vstd::prelude::*;
use crate::engine::Action;
use crate::engine::CopyError;
use crate::engine::Event;
use crate::engine::Outcome;
use crate::engine::Phase;
use crate::engine::Transfer;
use crate::engine::TransferState;
use crate::image::read_at;
use crate::image::read_bytes;
use crate::image::stripped;
use crate::image::write_at;
use crate::image::written;
use crate::image::lemma_written_append;
use crate::layout::SectorLayout;
use crate::layout::lemma_payload_len_block;
use crate::layout::lemma_payload_len_bounds;
use crate::layout::lemma_payload_len_monotonic;
use crate::layout::lemma_source_index_block;
use crate::layout::lemma_source_index_in_range;
use crate::layout::lemma_units;
use crate::request::TransferRequest;
use vstd::arithmetic::div_mod::lemma_fundamental_div_mod_converse;

verus! {

/// How a run ends on an input of `input_len` bytes whose reads and writes all
/// succeed.
///
/// A run counts the bytes it still expects from the size of the input, and
/// lowers the count by the payload bytes it reads, not by the spare bytes. So
/// the count reaches zero only where the run met no spare byte: where units
/// have none, or where the input ends within the first sector. Everywhere
/// else the input ends while bytes are still expected, and the read that
/// finds the end abandons the run, with all payload written by then.
pub open spec fn run_outcome(input_len: nat, read_offset: int, layout: SectorLayout) -> Outcome {
    if read_offset >= input_len {
        Outcome::NothingToDo
    } else if layout.spare_size() == 0 || input_len - read_offset <= layout.payload_size() {
        Outcome::Copied
    } else {
        Outcome::Failed(CopyError::Read)
    }
}

/// What a run leaves in the output: the payload of the dump from the read
/// offset on, written at the write offset.
pub open spec fn copied_image(
    input: Seq<u8>,
    output: Seq<u8>,
    read_offset: int,
    write_offset: int,
    layout: SectorLayout,
) -> Seq<u8> {
    written(output, write_offset, stripped(input, read_offset, layout))
}

/// A run whose read offset lies at or past the end of the input has nothing
/// to do: it succeeds, and the output is left as it was.
pub proof fn lemma_nothing_to_copy(
    input: Seq<u8>,
    output: Seq<u8>,
    read_offset: int,
    write_offset: int,
    layout: SectorLayout,
)
    requires
        read_offset >= input.len(),
    ensures
        run_outcome(input.len(), read_offset, layout) == Outcome::NothingToDo,
        copied_image(input, output, read_offset, write_offset, layout) == output,
{
}

/// Where units have no spare bytes, a run from the start of the input to the
/// start of an output that is no longer than the input succeeds and makes the
/// output a copy of the input.
pub proof fn lemma_no_spare_is_copy(input: Seq<u8>, output: Seq<u8>, layout: SectorLayout)
    requires
        layout.wf(),
        layout.spare_size() == 0,
        output.len() <= input.len(),
    ensures
        stripped(input, 0, layout) == input,
        copied_image(input, output, 0, 0, layout) == input,
        !(run_outcome(input.len(), 0, layout) is Failed),
{
    lemma_payload_len_bounds(layout, input.len() as int);
    assert forall|k: int| 0 <= k < input.len() implies layout.source_index(k) == k by {
        lemma_units(layout, k);
    }
}

/// A dump of whole units gives the payload of each unit, in order: as many
/// sectors as there are units, each byte taken from its place in its unit.
pub proof fn lemma_whole_units(input: Seq<u8>, units: nat, layout: SectorLayout)
    requires
        layout.wf(),
        input.len() == units * layout.unit_size(),
    ensures
        stripped(input, 0, layout).len() == units * layout.payload_size(),
        forall|k: int|
            0 <= k < units * layout.payload_size() ==> 0 <= layout.source_index(k) < input.len()
                && #[trigger] stripped(input, 0, layout)[k] == input[layout.source_index(k)],
        copied_image(input, Seq::empty(), 0, 0, layout) == stripped(input, 0, layout),
{
    let unit = layout.unit_size();
    let size = layout.payload_size() as int;
    if units == 0 {
        assert(units * unit == 0) by (nonlinear_arith)
            requires
                units == 0,
        ;
        assert(units * size == 0) by (nonlinear_arith)
            requires
                units == 0,
        ;
    } else {
        lemma_fundamental_div_mod_converse(input.len() as int, unit, units as int, 0);
        assert forall|k: int| 0 <= k < units * size implies 0 <= #[trigger] layout.source_index(
            k,
        ) && layout.source_index(k) < input.len() by {
            lemma_source_index_in_range(layout, input.len() as int, k);
        }
    }
}

/// The same for the layout of sector dumps, in numbers: `units` units of 520
/// bytes give `units` sectors of 512 bytes, and byte `k` of the result is
/// byte `(k / 512) * 520 + k % 512` of the dump.
pub proof fn lemma_whole_sectors(input: Seq<u8>, units: nat, layout: SectorLayout)
    requires
        layout.payload_size() == 512,
        layout.spare_size() == 8,
        input.len() == units * 520,
    ensures
        stripped(input, 0, layout).len() == units * 512,
        forall|k: int|
            0 <= k < units * 512 ==> (k / 512) * 520 + k % 512 < input.len() && #[trigger] stripped(
                input,
                0,
                layout,
            )[k] == input[(k / 512) * 520 + k % 512],
        copied_image(input, Seq::empty(), 0, 0, layout) == stripped(input, 0, layout),
{
    lemma_whole_units(input, units, layout);
    assert forall|k: int| 0 <= k < units * 512 implies (k / 512) * 520 + k % 512 < input.len()
        && #[trigger] stripped(input, 0, layout)[k] == input[(k / 512) * 520 + k % 512] by {
        assert(layout.source_index(k) == (k / 512) * 520 + k % 512);
    }
}

/// Where the images and cursors stand at each phase of a run that has taken
/// `consumed` bytes of the dump.
spec fn on_track(
    state: TransferState,
    input: Seq<u8>,
    before: Seq<u8>,
    output: Seq<u8>,
    in_pos: int,
    out_pos: int,
    block: Seq<u8>,
    consumed: int,
) -> bool {
    let from = state.read_offset as int;
    let to = state.write_offset as int;
    let layout = state.layout;
    let total = input.len() - from;
    let payload = stripped(input, from, layout);
    let done = layout.payload_len(consumed);
    let result = copied_image(input, before, from, to, layout);
    let holding = {
        &&& from < input.len()
        &&& 0 <= consumed < total
        &&& consumed % layout.unit_size() == 0
        &&& block == read_bytes(input, from + consumed, layout.payload_size() as int)
        &&& state.pending == block.len()
        &&& out_pos == to + done
        &&& output == written(before, to, payload.take(done))
        &&& state.remaining == total - done - block.len()
    };
    match state.phase {
        Phase::OpenInput | Phase::OpenOutput | Phase::SeekInput => output == before,
        Phase::SeekOutput => output == before && in_pos == from,
        Phase::QuerySize => output == before && in_pos == from && out_pos == to,
        Phase::ReadPayload => {
            &&& from < input.len()
            &&& 0 <= consumed <= total
            &&& consumed % layout.unit_size() == 0 || consumed == total
            &&& in_pos == from + consumed
            &&& out_pos == to + done
            &&& output == written(before, to, payload.take(done))
            &&& state.remaining == total - done
        },
        Phase::ReadSpare => holding && in_pos == from + consumed + block.len(),
        Phase::WritePayload => holding && in_pos == from + next_boundary(layout, consumed, total),
        Phase::Flush => output == result && run_outcome(input.len(), from, layout)
            == Outcome::Copied,
        Phase::Finished(outcome) => output == result && outcome == run_outcome(
            input.len(),
            from,
            layout,
        ),
    }
}

/// Where the unit that starts at `consumed` ends in a dump of `total` bytes.
spec fn next_boundary(layout: SectorLayout, consumed: int, total: int) -> int {
    if consumed + layout.unit_size() <= total {
        consumed + layout.unit_size()
    } else {
        total
    }
}

/// The run is on track after the size query, whichever way it goes.
proof fn lemma_size_known(state: TransferState, input: Seq<u8>, before: Seq<u8>, block: Seq<u8>)
    requires
        state.wf(),
        state.phase is QuerySize,
        input.len() <= u64::MAX,
    ensures
        on_track(
            state.step(Event::Size { bytes: input.len() as u64 }),
            input,
            before,
            before,
            state.read_offset as int,
            state.write_offset as int,
            block,
            0,
        ),
{
    let from = state.read_offset as int;
    let layout = state.layout;
    if from < input.len() {
        lemma_fundamental_div_mod_converse(0, layout.unit_size(), 0, 0);
    }
}

/// The run is on track after a payload read: holding the next block, or
/// abandoned at the end of the input with all payload written.
proof fn lemma_payload_read(
    state: TransferState,
    input: Seq<u8>,
    before: Seq<u8>,
    output: Seq<u8>,
    in_pos: int,
    out_pos: int,
    old_block: Seq<u8>,
    consumed: int,
)
    requires
        state.wf(),
        state.phase is ReadPayload,
        input.len() <= usize::MAX,
        on_track(state, input, before, output, in_pos, out_pos, old_block, consumed),
    ensures
        ({
            let block = read_bytes(input, in_pos, state.layout.payload_size() as int);
            let event = Event::Read { count: block.len() as usize };
            &&& state.admits(event)
            &&& on_track(
                state.step(event),
                input,
                before,
                output,
                in_pos + block.len(),
                out_pos,
                block,
                consumed,
            )
        }),
{
    let from = state.read_offset as int;
    let layout = state.layout;
    let total = input.len() - from;
    let payload = stripped(input, from, layout);
    lemma_payload_len_bounds(layout, consumed);
    lemma_payload_len_bounds(layout, total);
    if consumed == total {
        assert(payload.take(layout.payload_len(total)) =~= payload);
    }
}

/// The run is on track after a spare read, with the input's cursor at the
/// next unit or at the end of the input.
proof fn lemma_spare_read(
    state: TransferState,
    input: Seq<u8>,
    before: Seq<u8>,
    output: Seq<u8>,
    in_pos: int,
    out_pos: int,
    block: Seq<u8>,
    consumed: int,
)
    requires
        state.wf(),
        state.phase is ReadSpare,
        input.len() <= usize::MAX,
        on_track(state, input, before, output, in_pos, out_pos, block, consumed),
    ensures
        ({
            let spare = read_bytes(input, in_pos, state.layout.spare_size() as int);
            let event = Event::Read { count: spare.len() as usize };
            &&& state.admits(event)
            &&& on_track(
                state.step(event),
                input,
                before,
                output,
                in_pos + spare.len(),
                out_pos,
                block,
                consumed,
            )
        }),
{
}

/// The run is on track after a block is written: the output holds the
/// payload of all that was consumed, and the block fits the final image.
proof fn lemma_payload_written(
    state: TransferState,
    input: Seq<u8>,
    before: Seq<u8>,
    output: Seq<u8>,
    in_pos: int,
    out_pos: int,
    block: Seq<u8>,
    consumed: int,
)
    requires
        state.wf(),
        state.phase is WritePayload,
        on_track(state, input, before, output, in_pos, out_pos, block, consumed),
    ensures
        out_pos + block.len() <= copied_image(
            input,
            before,
            state.read_offset as int,
            state.write_offset as int,
            state.layout,
        ).len(),
        on_track(
            state.step(Event::Done),
            input,
            before,
            written(output, out_pos, block),
            in_pos,
            out_pos + block.len(),
            block,
            next_boundary(state.layout, consumed, input.len() - state.read_offset),
        ),
{
    let from = state.read_offset as int;
    let to = state.write_offset as int;
    let layout = state.layout;
    let total = input.len() - from;
    let payload = stripped(input, from, layout);
    let done = layout.payload_len(consumed);
    let next = next_boundary(layout, consumed, total);
    let k = block.len() as int;
    lemma_payload_len_block(layout, consumed, total);
    lemma_payload_len_monotonic(layout, next, total);
    lemma_payload_len_bounds(layout, total);
    lemma_payload_len_bounds(layout, consumed);
    assert(block =~= payload.subrange(done, done + k)) by {
        assert forall|j: int| 0 <= j < k implies block[j] == payload[done + j] by {
            lemma_source_index_block(layout, consumed, j);
        }
    }
    assert(payload.take(done) + block =~= payload.take(done + k));
    lemma_written_append(before, to, payload.take(done), block);
    if next != total {
        let unit = layout.unit_size();
        let units = consumed / unit;
        lemma_units(layout, consumed);
        assert(next == (units + 1) * unit + 0) by (nonlinear_arith)
            requires
                next == consumed + unit,
                consumed == units * unit,
        ;
        lemma_fundamental_div_mod_converse(next, unit, units + 1, 0);
    }
    if state.remaining == 0 {
        assert(payload.take(done + k) =~= payload);
    }
}

/// Carries out the run of `request` with `input` as the input file and
/// `output` as the output file, where every read and write succeeds.
pub fn process_image(
    request: &TransferRequest,
    layout: SectorLayout,
    input: &[u8],
    output: &mut Vec<u8>,
) -> (outcome: Outcome)
    requires
        copied_image(
            input@,
            old(output)@,
            request.read_offset as int,
            request.write_offset as int,
            layout,
        ).len() <= usize::MAX,
    ensures
        outcome == run_outcome(input@.len(), request.read_offset as int, layout),
        final(output)@ == copied_image(
            input@,
            old(output)@,
            request.read_offset as int,
            request.write_offset as int,
            layout,
        ),
        request.read_offset >= input@.len() ==> outcome == Outcome::NothingToDo && final(output)@
            == old(output)@,
{
    let ghost before = output@;
    let ghost mut consumed: int = 0;
    let input_len: usize = input.len();
    let mut transfer = Transfer::new(request, layout);
    let mut in_pos: u64 = 0;
    let mut out_pos: u64 = 0;
    let mut block: Vec<u8> = Vec::new();
    loop
        invariant
            before == old(output)@,
            transfer@.wf(),
            transfer@.layout == layout,
            transfer@.read_offset == request.read_offset,
            transfer@.write_offset == request.write_offset,
            input_len == input@.len(),
            copied_image(
                input@,
                before,
                request.read_offset as int,
                request.write_offset as int,
                layout,
            ).len() <= usize::MAX,
            on_track(
                transfer@,
                input@,
                before,
                output@,
                in_pos as int,
                out_pos as int,
                block@,
                consumed,
            ),
        decreases transfer@.rank(),
    {
        let event = match transfer.action() {
            Action::OpenInput => Event::Done,
            Action::OpenOutput => Event::Done,
            Action::SeekInput { offset } => {
                in_pos = offset;
                Event::Done
            },
            Action::SeekOutput { offset } => {
                out_pos = offset;
                Event::Done
            },
            Action::QuerySize => {
                proof {
                    lemma_size_known(transfer@, input@, before, block@);
                    consumed = 0;
                }
                Event::Size { bytes: input_len as u64 }
            },
            Action::ReadPayload { len } => {
                proof {
                    lemma_payload_read(
                        transfer@,
                        input@,
                        before,
                        output@,
                        in_pos as int,
                        out_pos as int,
                        block@,
                        consumed,
                    );
                }
                block = read_at(input, in_pos, len);
                in_pos = in_pos + block.len() as u64;
                Event::Read { count: block.len() }
            },
            Action::ReadSpare { len } => {
                proof {
                    lemma_spare_read(
                        transfer@,
                        input@,
                        before,
                        output@,
                        in_pos as int,
                        out_pos as int,
                        block@,
                        consumed,
                    );
                }
                let spare = read_at(input, in_pos, len);
                in_pos = in_pos + spare.len() as u64;
                Event::Read { count: spare.len() }
            },
            Action::WritePayload { len } => {
                proof {
                    lemma_payload_written(
                        transfer@,
                        input@,
                        before,
                        output@,
                        in_pos as int,
                        out_pos as int,
                        block@,
                        consumed,
                    );
                    consumed = next_boundary(layout, consumed, input@.len() - request.read_offset);
                }
                write_at(output, out_pos as usize, block.as_slice());
                out_pos = out_pos + len as u64;
                Event::Done
            },
            Action::Flush => Event::Done,
            Action::Finish { outcome } => {
                return outcome;
            },
        };
        let accepted = transfer.advance(event);
        assert(accepted);
    }
}

} // verus!
