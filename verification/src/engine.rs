//! The decisions of a copy run, one step at a time.
//!
//! A run alternates work on the two files with decisions about what to do
//! next. The files are the caller's; the decisions are a [`Transfer`]. The
//! caller asks it for the next [`Action`], carries the action out, and hands
//! back what happened as an [`Event`], until the action is
//! [`Action::Finish`].

use vstd::prelude::*;
use crate::layout::SectorLayout;
use crate::request::TransferRequest;

verus! {

/// Why a run was abandoned.
#[derive(Clone, Copy, Debug, PartialEq, Eq, Structural)]
pub enum CopyError {
    /// The input could not be opened.
    InputOpen,
    /// The output could not be opened or created.
    OutputOpen,
    /// A read failed, or the input ended while bytes were still expected.
    Read,
    /// Payload could not be written out.
    Write,
}

/// How a run ended.
#[derive(Clone, Copy, Debug, PartialEq, Eq, Structural)]
pub enum Outcome {
    /// The read offset lies at or past the end of the input: nothing was copied.
    NothingToDo,
    /// Every expected byte was read and the payload written out.
    Copied,
    /// The run was abandoned; what had been written by then stays written.
    Failed(CopyError),
}

impl Outcome {
    /// Only an abandoned run is a failure: a run with nothing to do has
    /// succeeded.
    pub fn is_success(&self) -> (ok: bool)
        ensures
            ok == !(*self is Failed),
    {
        match self {
            Outcome::Failed(_) => false,
            _ => true,
        }
    }
}

/// Where a run stands: the work it is waiting for, or how it ended.
#[derive(Clone, Copy, Debug, PartialEq, Eq, Structural)]
pub enum Phase {
    /// Waiting for the input to be opened.
    OpenInput,
    /// Waiting for the output to be opened.
    OpenOutput,
    /// Waiting for the input's cursor to reach the read offset.
    SeekInput,
    /// Waiting for the output's cursor to reach the write offset.
    SeekOutput,
    /// Waiting to learn the size of the input.
    QuerySize,
    /// Waiting for the payload of the next unit.
    ReadPayload,
    /// Holding a block of payload, waiting for the spare bytes behind it.
    ReadSpare,
    /// Waiting for the block to be written out.
    WritePayload,
    /// All expected bytes are accounted for; waiting for the last flush.
    Flush,
    /// Over.
    Finished(Outcome),
}

/// What the caller is to do next.
#[derive(Clone, Copy, Debug, PartialEq, Eq, Structural)]
pub enum Action {
    /// Open the input for reading only.
    OpenInput,
    /// Open the output for writing, creating it if need be, keeping what it holds.
    OpenOutput,
    /// Move the input's cursor to `offset`.
    SeekInput { offset: u64 },
    /// Move the output's cursor to `offset`.
    SeekOutput { offset: u64 },
    /// Report the size of the input.
    QuerySize,
    /// Read `len` bytes of payload at the input's cursor, or as many as the
    /// input still holds, and keep them.
    ReadPayload { len: usize },
    /// Read `len` spare bytes at the input's cursor, or as many as the input
    /// still holds, and drop them.
    ReadSpare { len: usize },
    /// Write the first `len` bytes of the payload last read at the output's cursor.
    WritePayload { len: usize },
    /// Push buffered output through to the file.
    Flush,
    /// Release both files; the run has ended with `outcome`.
    Finish { outcome: Outcome },
}

/// What came of the action.
#[derive(Clone, Copy, Debug, PartialEq, Eq, Structural)]
pub enum Event {
    /// The file was opened, the cursor moved, or the bytes written or flushed.
    Done,
    /// The input holds `bytes` bytes.
    Size { bytes: u64 },
    /// The read obtained `count` bytes; none means the input has ended.
    Read { count: usize },
    /// The action failed.
    Failed,
}

/// The state of a run.
#[derive(Clone, Copy, Debug, PartialEq, Eq, Structural)]
pub struct TransferState {
    pub phase: Phase,
    /// The units that the input is made of.
    pub layout: SectorLayout,
    /// Where reading starts in the input.
    pub read_offset: u64,
    /// Where writing starts in the output.
    pub write_offset: u64,
    /// Bytes of input still to be accounted for.
    pub remaining: u64,
    /// Payload bytes read and not yet written.
    pub pending: usize,
}

impl TransferState {
    /// A run that has done nothing yet.
    pub open spec fn initial(read_offset: u64, write_offset: u64, layout: SectorLayout) -> Self {
        TransferState {
            phase: Phase::OpenInput,
            layout,
            read_offset,
            write_offset,
            remaining: 0,
            pending: 0,
        }
    }

    /// A payload read is only asked for while bytes remain, and the payload
    /// held between a read and its write is a block of at least one byte.
    pub open spec fn wf(self) -> bool {
        &&& self.layout.wf()
        &&& self.phase is ReadPayload ==> self.remaining > 0
        &&& self.phase is ReadSpare || self.phase is WritePayload ==> 1 <= self.pending
            <= self.layout.payload_size()
    }

    /// The action that the run is waiting for.
    pub open spec fn action(self) -> Action {
        match self.phase {
            Phase::OpenInput => Action::OpenInput,
            Phase::OpenOutput => Action::OpenOutput,
            Phase::SeekInput => Action::SeekInput { offset: self.read_offset },
            Phase::SeekOutput => Action::SeekOutput { offset: self.write_offset },
            Phase::QuerySize => Action::QuerySize,
            Phase::ReadPayload => Action::ReadPayload { len: self.layout.payload_size() },
            Phase::ReadSpare => Action::ReadSpare { len: self.layout.spare_size() },
            Phase::WritePayload => Action::WritePayload { len: self.pending },
            Phase::Flush => Action::Flush,
            Phase::Finished(outcome) => Action::Finish { outcome },
        }
    }

    /// How the run ended, once it has.
    pub open spec fn outcome(self) -> Option<Outcome> {
        match self.phase {
            Phase::Finished(outcome) => Some(outcome),
            _ => None,
        }
    }

    /// Whether `event` can be what came of the pending action. A read
    /// obtains no more than was asked for. No event stands for a seek or a
    /// size query that failed: a run has no outcome for that, and its caller
    /// is left to fail by itself.
    pub open spec fn admits(self, event: Event) -> bool {
        match self.phase {
            Phase::OpenInput | Phase::OpenOutput | Phase::WritePayload | Phase::Flush => event
                is Done || event is Failed,
            Phase::SeekInput | Phase::SeekOutput => event is Done,
            Phase::QuerySize => event is Size,
            Phase::ReadPayload => event is Failed || (event matches Event::Read { count }
                && count <= self.layout.payload_size()),
            Phase::ReadSpare => event is Failed || (event matches Event::Read { count } && count
                <= self.layout.spare_size()),
            Phase::Finished(_) => false,
        }
    }

    /// The run abandoned for `error`.
    pub open spec fn failed(self, error: CopyError) -> Self {
        TransferState { phase: Phase::Finished(Outcome::Failed(error)), ..self }
    }

    /// The run in another phase.
    pub open spec fn at(self, phase: Phase) -> Self {
        TransferState { phase, ..self }
    }

    /// The state after an admitted event.
    pub open spec fn step(self, event: Event) -> Self {
        match (self.phase, event) {
            (Phase::OpenInput, Event::Done) => self.at(Phase::OpenOutput),
            (Phase::OpenInput, Event::Failed) => self.failed(CopyError::InputOpen),
            (Phase::OpenOutput, Event::Done) => self.at(Phase::SeekInput),
            (Phase::OpenOutput, Event::Failed) => self.failed(CopyError::OutputOpen),
            (Phase::SeekInput, Event::Done) => self.at(Phase::SeekOutput),
            (Phase::SeekOutput, Event::Done) => self.at(Phase::QuerySize),
            (Phase::QuerySize, Event::Size { bytes }) => if self.read_offset >= bytes {
                self.at(Phase::Finished(Outcome::NothingToDo))
            } else {
                TransferState {
                    phase: Phase::ReadPayload,
                    remaining: (bytes - self.read_offset) as u64,
                    ..self
                }
            },
            (Phase::ReadPayload, Event::Read { count }) => if count == 0 {
                self.failed(CopyError::Read)
            } else {
                TransferState {
                    phase: Phase::ReadSpare,
                    remaining: if count >= self.remaining {
                        0
                    } else {
                        (self.remaining - count) as u64
                    },
                    pending: count,
                    ..self
                }
            },
            (Phase::ReadPayload, Event::Failed) => self.failed(CopyError::Read),
            (Phase::ReadSpare, Event::Read { count }) => self.at(Phase::WritePayload),
            (Phase::ReadSpare, Event::Failed) => self.failed(CopyError::Read),
            (Phase::WritePayload, Event::Done) => if self.remaining == 0 {
                self.at(Phase::Flush)
            } else {
                self.at(Phase::ReadPayload)
            },
            (Phase::WritePayload, Event::Failed) => self.failed(CopyError::Write),
            (Phase::Flush, Event::Done) => self.at(Phase::Finished(Outcome::Copied)),
            (Phase::Flush, Event::Failed) => self.failed(CopyError::Write),
            _ => self,
        }
    }

    /// The state after each of `events` in turn.
    pub open spec fn after(self, events: Seq<Event>) -> Self
        decreases events.len(),
    {
        if events.len() == 0 {
            self
        } else {
            self.after(events.drop_last()).step(events.last())
        }
    }

    /// Whether each of `events` is admitted when its turn comes.
    pub open spec fn admits_all(self, events: Seq<Event>) -> bool
        decreases events.len(),
    {
        events.len() == 0 || (self.admits_all(events.drop_last()) && self.after(
            events.drop_last(),
        ).admits(events.last()))
    }

    /// A bound on the events that the run can still take.
    pub open spec fn rank(self) -> nat {
        match self.phase {
            Phase::Finished(_) => 0,
            Phase::Flush => 1,
            Phase::ReadPayload => 3 * (self.remaining as nat) + 1,
            Phase::WritePayload => 3 * (self.remaining as nat) + 2,
            Phase::ReadSpare => 3 * (self.remaining as nat) + 3,
            Phase::QuerySize => 3 * (u64::MAX as nat) + 4,
            Phase::SeekOutput => 3 * (u64::MAX as nat) + 5,
            Phase::SeekInput => 3 * (u64::MAX as nat) + 6,
            Phase::OpenOutput => 3 * (u64::MAX as nat) + 7,
            Phase::OpenInput => 3 * (u64::MAX as nat) + 8,
        }
    }
}

/// Every admitted event brings a run nearer its end, whatever the files do:
/// a block that was read takes at least one byte off what remains, so no
/// sequence of events keeps a run going for ever.
pub proof fn lemma_step_progress(state: TransferState, event: Event)
    requires
        state.wf(),
        state.admits(event),
    ensures
        state.step(event).wf(),
        state.step(event).rank() < state.rank(),
        state.step(event).layout == state.layout,
        state.step(event).read_offset == state.read_offset,
        state.step(event).write_offset == state.write_offset,
{
}

/// No run goes on for ever: however the files answer, a run takes no more
/// events than its rank allows, and each of them uses up some of it.
pub proof fn lemma_runs_end(state: TransferState, events: Seq<Event>)
    requires
        state.wf(),
        state.admits_all(events),
    ensures
        state.after(events).wf(),
        state.after(events).rank() + events.len() <= state.rank(),
        events.len() <= 3 * (u64::MAX as nat) + 8,
    decreases events.len(),
{
    if events.len() > 0 {
        lemma_runs_end(state, events.drop_last());
        lemma_step_progress(state.after(events.drop_last()), events.last());
    }
}

/// There are no retries: whatever action fails, the run is over at once, and
/// its outcome names the kind of work that failed.
pub proof fn lemma_failure_ends_run(state: TransferState)
    requires
        state.admits(Event::Failed),
    ensures
        state.step(Event::Failed).outcome() == Some(
            Outcome::Failed(
                match state.phase {
                    Phase::OpenInput => CopyError::InputOpen,
                    Phase::OpenOutput => CopyError::OutputOpen,
                    Phase::ReadPayload | Phase::ReadSpare => CopyError::Read,
                    _ => CopyError::Write,
                },
            ),
        ),
{
}

/// Once the size of the input is known, a run whose read offset lies at or
/// past the end ends at once with nothing to do, and no other run does: it
/// goes on to read, expecting the bytes from the read offset to the end.
pub proof fn lemma_size_decides(state: TransferState, bytes: u64)
    requires
        state.phase is QuerySize,
    ensures
        state.read_offset >= bytes <==> state.step(Event::Size { bytes }).outcome() == Some(
            Outcome::NothingToDo,
        ),
        state.read_offset < bytes ==> state.step(Event::Size { bytes }).action()
            == (Action::ReadPayload { len: state.layout.payload_size() })
            && state.step(Event::Size { bytes }).remaining == bytes - state.read_offset,
{
}

/// The decisions of one copy run.
pub struct Transfer {
    state: TransferState,
}

impl View for Transfer {
    type V = TransferState;

    closed spec fn view(&self) -> TransferState {
        self.state
    }
}

impl Transfer {
    /// A transfer is never in a state that no run reaches.
    #[verifier::type_invariant]
    pub closed spec fn inv(&self) -> bool {
        self@.wf()
    }

    /// A run of `request` over units of `layout`, with nothing done yet.
    pub fn new(request: &TransferRequest, layout: SectorLayout) -> (transfer: Transfer)
        ensures
            transfer@ == TransferState::initial(request.read_offset, request.write_offset, layout),
            transfer@.wf(),
    {
        proof {
            use_type_invariant(&layout);
        }
        Transfer {
            state: TransferState {
                phase: Phase::OpenInput,
                layout,
                read_offset: request.read_offset,
                write_offset: request.write_offset,
                remaining: 0,
                pending: 0,
            },
        }
    }

    /// What to do next.
    pub fn action(&self) -> (action: Action)
        ensures
            action == self@.action(),
            self@.wf(),
    {
        proof {
            use_type_invariant(self);
        }
        match self.state.phase {
            Phase::OpenInput => Action::OpenInput,
            Phase::OpenOutput => Action::OpenOutput,
            Phase::SeekInput => Action::SeekInput { offset: self.state.read_offset },
            Phase::SeekOutput => Action::SeekOutput { offset: self.state.write_offset },
            Phase::QuerySize => Action::QuerySize,
            Phase::ReadPayload => Action::ReadPayload { len: self.state.layout.payload_size() },
            Phase::ReadSpare => Action::ReadSpare { len: self.state.layout.spare_size() },
            Phase::WritePayload => Action::WritePayload { len: self.state.pending },
            Phase::Flush => Action::Flush,
            Phase::Finished(outcome) => Action::Finish { outcome },
        }
    }

    /// How the run ended, once it has.
    pub fn outcome(&self) -> (outcome: Option<Outcome>)
        ensures
            outcome == self@.outcome(),
    {
        match self.state.phase {
            Phase::Finished(outcome) => Some(outcome),
            _ => None,
        }
    }

    /// Bytes of input still to be accounted for.
    pub fn remaining(&self) -> (remaining: u64)
        ensures
            remaining == self@.remaining,
    {
        self.state.remaining
    }

    /// Takes what came of the pending action and decides what follows. An
    /// event that cannot be what came of that action is refused and changes
    /// nothing.
    pub fn advance(&mut self, event: Event) -> (accepted: bool)
        ensures
            accepted == old(self)@.admits(event),
            accepted ==> final(self)@ == old(self)@.step(event),
            !accepted ==> final(self)@ == old(self)@,
            final(self)@.wf(),
            accepted ==> final(self)@.rank() < old(self)@.rank(),
    {
        proof {
            use_type_invariant(&*self);
            if old(self)@.admits(event) {
                lemma_step_progress(old(self)@, event);
            }
        }
        match (self.state.phase, event) {
            (Phase::OpenInput, Event::Done) => {
                self.state.phase = Phase::OpenOutput;
            },
            (Phase::OpenInput, Event::Failed) => {
                self.state.phase = Phase::Finished(Outcome::Failed(CopyError::InputOpen));
            },
            (Phase::OpenOutput, Event::Done) => {
                self.state.phase = Phase::SeekInput;
            },
            (Phase::OpenOutput, Event::Failed) => {
                self.state.phase = Phase::Finished(Outcome::Failed(CopyError::OutputOpen));
            },
            (Phase::SeekInput, Event::Done) => {
                self.state.phase = Phase::SeekOutput;
            },
            (Phase::SeekOutput, Event::Done) => {
                self.state.phase = Phase::QuerySize;
            },
            (Phase::QuerySize, Event::Size { bytes }) => {
                if self.state.read_offset >= bytes {
                    self.state.phase = Phase::Finished(Outcome::NothingToDo);
                } else {
                    self.state.remaining = bytes - self.state.read_offset;
                    self.state.phase = Phase::ReadPayload;
                }
            },
            (Phase::ReadPayload, Event::Read { count }) => {
                if count > self.state.layout.payload_size() {
                    return false;
                }
                if count == 0 {
                    self.state.phase = Phase::Finished(Outcome::Failed(CopyError::Read));
                } else {
                    self.state.pending = count;
                    self.state.phase = Phase::ReadSpare;
                    self.state.remaining = self.state.remaining.saturating_sub(count as u64);
                }
            },
            (Phase::ReadPayload, Event::Failed) => {
                self.state.phase = Phase::Finished(Outcome::Failed(CopyError::Read));
            },
            (Phase::ReadSpare, Event::Read { count }) => {
                if count > self.state.layout.spare_size() {
                    return false;
                }
                self.state.phase = Phase::WritePayload;
            },
            (Phase::ReadSpare, Event::Failed) => {
                self.state.phase = Phase::Finished(Outcome::Failed(CopyError::Read));
            },
            (Phase::WritePayload, Event::Done) => {
                if self.state.remaining == 0 {
                    self.state.phase = Phase::Flush;
                } else {
                    self.state.phase = Phase::ReadPayload;
                }
            },
            (Phase::WritePayload, Event::Failed) => {
                self.state.phase = Phase::Finished(Outcome::Failed(CopyError::Write));
            },
            (Phase::Flush, Event::Done) => {
                self.state.phase = Phase::Finished(Outcome::Copied);
            },
            (Phase::Flush, Event::Failed) => {
                self.state.phase = Phase::Finished(Outcome::Failed(CopyError::Write));
            },
            _ => {
                return false;
            },
        }
        true
    }
}

} // verus!
