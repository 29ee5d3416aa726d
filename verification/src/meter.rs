//! The course of one benchmark run, as a state machine.
//!
//! The machine makes every decision of a run and touches no file. Its
//! driver performs the pending [`Action`], reports what happened as an
//! [`Event`], and gets the next action back, until the action is
//! [`Action::Finish`] or [`Action::Abort`].

use vstd::prelude::*;
use crate::config::BenchmarkConfig;
use crate::config::sizes_valid;

verus! {

/// Runs smaller than this many bytes show no progress.
pub const PROGRESS_THRESHOLD: u64 = 100;

/// Where a run stands.
#[derive(Clone, Copy, Debug, PartialEq, Eq, Structural)]
pub enum Stage {
    /// The test file is not open yet.
    OpenWrite,
    /// Blocks are being written.
    Write,
    /// Every byte is written; the file is not yet on stable storage.
    Sync,
    /// The write pass is over; the file is not yet open for reading.
    OpenRead,
    /// Blocks are being read back.
    Read,
    /// Both passes are over; the results are not yet shown.
    Report,
    /// The results are shown; the test file is still there and must go.
    Cleanup,
    /// The run ended well.
    Done,
    /// The run was given up.
    Failed,
}

/// What the driver has to do next.
#[derive(Clone, Copy, Debug, PartialEq, Eq, Structural)]
pub enum Action {
    /// Create or truncate the test file and open it for uncached writing.
    /// The clock of the write pass starts when this is done.
    OpenForWrite,
    /// Write the first `len` bytes of the payload block, all of them.
    Write { len: u64 },
    /// Flush, and bring data and metadata to stable storage.
    Sync,
    /// Open the test file anew, for uncached reading. The clock of the read
    /// pass starts when this is done.
    OpenForRead,
    /// Read once, at most `max_len` bytes.
    Read { max_len: u64 },
    /// Show the results.
    Report,
    /// Delete the test file.
    RemoveFile,
    /// Leave with success.
    Finish,
    /// Leave with failure. The test file is left as it is.
    Abort,
}

/// What came of the action that the driver performed.
#[derive(Clone, Copy, Debug, PartialEq, Eq, Structural)]
pub enum Event {
    /// The action succeeded. `elapsed_nanos` is the time since the clock of
    /// the running pass started; it is not looked at outside a pass.
    Completed { elapsed_nanos: u64 },
    /// A read returned `count` bytes; zero bytes mean the end of the file.
    Read { count: u64, elapsed_nanos: u64 },
    /// The action failed.
    Failed,
}

/// One of the two passes.
#[derive(Clone, Copy, Debug, PartialEq, Eq, Structural)]
pub enum Pass {
    Write,
    Read,
}

/// What the driver should show after a step.
#[derive(Clone, Copy, Debug, PartialEq, Eq, Structural)]
pub enum Notice {
    /// Nothing.
    Silent,
    /// The status line of the running pass, with `done` bytes moved so far.
    Progress { pass: Pass, done: u64, elapsed_nanos: u64 },
    /// The status line of a pass is complete: end the line.
    PassEnd,
}

/// The measurement of one pass.
#[derive(Clone, Copy, Debug, PartialEq, Eq, Structural)]
pub struct PhaseResult {
    pub bytes_transferred: u64,
    pub elapsed_nanos: u64,
}

/// The state of a run, as plain values.
#[derive(Clone, Copy, Debug, PartialEq, Eq, Structural)]
pub struct MeterState {
    pub total_bytes: u64,
    pub block_bytes: u64,
    pub keep_file: bool,
    pub stage: Stage,
    /// Bytes written so far.
    pub written: u64,
    /// Bytes read back so far.
    pub read: u64,
    /// Time of the write pass up to the last write or the sync.
    pub write_nanos: u64,
    /// Time of the read pass up to the last read.
    pub read_nanos: u64,
}

impl MeterState {
    /// The state before anything has happened.
    pub open spec fn initial(total_bytes: u64, block_bytes: u64, keep_file: bool) -> MeterState {
        MeterState {
            total_bytes,
            block_bytes,
            keep_file,
            stage: Stage::OpenWrite,
            written: 0,
            read: 0,
            write_nanos: 0,
            read_nanos: 0,
        }
    }

    /// The states that a run can be in.
    pub open spec fn wf(self) -> bool {
        &&& sizes_valid(self.total_bytes, self.block_bytes)
        &&& self.written <= self.total_bytes
        &&& self.stage == Stage::OpenWrite ==> self.written == 0
        &&& self.stage == Stage::Write ==> self.written < self.total_bytes
        &&& (self.stage == Stage::Sync || self.stage == Stage::OpenRead || self.stage
            == Stage::Read || self.stage == Stage::Report || self.stage == Stage::Cleanup
            || self.stage == Stage::Done) ==> self.written == self.total_bytes
        &&& (self.stage == Stage::OpenWrite || self.stage == Stage::Write || self.stage
            == Stage::Sync || self.stage == Stage::OpenRead) ==> self.read == 0
        &&& self.stage == Stage::Cleanup ==> !self.keep_file
    }

    /// The length of the next write: a whole block, or what is left of the
    /// total if that is less.
    pub open spec fn chunk(self) -> u64 {
        if self.total_bytes - self.written < self.block_bytes {
            (self.total_bytes - self.written) as u64
        } else {
            self.block_bytes
        }
    }

    /// The action that is due in this state.
    pub open spec fn pending(self) -> Action {
        match self.stage {
            Stage::OpenWrite => Action::OpenForWrite,
            Stage::Write => Action::Write { len: self.chunk() },
            Stage::Sync => Action::Sync,
            Stage::OpenRead => Action::OpenForRead,
            Stage::Read => Action::Read { max_len: self.block_bytes },
            Stage::Report => Action::Report,
            Stage::Cleanup => Action::RemoveFile,
            Stage::Done => Action::Finish,
            Stage::Failed => Action::Abort,
        }
    }

    /// Whether this state and `other` have the same parameters.
    pub open spec fn same_run(self, other: MeterState) -> bool {
        &&& self.total_bytes == other.total_bytes
        &&& self.block_bytes == other.block_bytes
        &&& self.keep_file == other.keep_file
    }

    /// This state at another stage.
    pub open spec fn at(self, stage: Stage) -> MeterState {
        MeterState { stage, ..self }
    }

    /// The state after `event` has answered the pending action.
    ///
    /// A failure gives the run up at every stage, the deletion of the test
    /// file included. So does an event that the pending action cannot bring
    /// about. A run that has ended stays as it is.
    pub open spec fn after(self, event: Event) -> MeterState {
        match self.stage {
            Stage::OpenWrite => match event {
                Event::Completed { .. } => self.at(Stage::Write),
                _ => self.at(Stage::Failed),
            },
            Stage::Write => match event {
                Event::Completed { elapsed_nanos } => {
                    let written = (self.written + self.chunk()) as u64;
                    MeterState {
                        written,
                        write_nanos: elapsed_nanos,
                        stage: if written == self.total_bytes {
                            Stage::Sync
                        } else {
                            Stage::Write
                        },
                        ..self
                    }
                },
                _ => self.at(Stage::Failed),
            },
            Stage::Sync => match event {
                Event::Completed { elapsed_nanos } => MeterState {
                    write_nanos: elapsed_nanos,
                    stage: Stage::OpenRead,
                    ..self
                },
                _ => self.at(Stage::Failed),
            },
            Stage::OpenRead => match event {
                Event::Completed { .. } => self.at(Stage::Read),
                _ => self.at(Stage::Failed),
            },
            Stage::Read => match event {
                Event::Read { count, elapsed_nanos } => {
                    if count == 0 {
                        MeterState { read_nanos: elapsed_nanos, stage: Stage::Report, ..self }
                    } else if count <= self.block_bytes && self.read + count <= u64::MAX {
                        MeterState {
                            read: (self.read + count) as u64,
                            read_nanos: elapsed_nanos,
                            ..self
                        }
                    } else {
                        self.at(Stage::Failed)
                    }
                },
                _ => self.at(Stage::Failed),
            },
            Stage::Report => match event {
                Event::Completed { .. } => if self.keep_file {
                    self.at(Stage::Done)
                } else {
                    self.at(Stage::Cleanup)
                },
                _ => self.at(Stage::Failed),
            },
            Stage::Cleanup => match event {
                Event::Completed { .. } => self.at(Stage::Done),
                _ => self.at(Stage::Failed),
            },
            Stage::Done => self,
            Stage::Failed => self,
        }
    }

    /// What there is to show when `event` answers the pending action.
    pub open spec fn notice(self, event: Event) -> Notice {
        if self.total_bytes < PROGRESS_THRESHOLD {
            Notice::Silent
        } else {
            match (self.stage, event) {
                (Stage::Write, Event::Completed { elapsed_nanos }) => Notice::Progress {
                    pass: Pass::Write,
                    done: (self.written + self.chunk()) as u64,
                    elapsed_nanos,
                },
                (Stage::Sync, Event::Completed { .. }) => Notice::PassEnd,
                (Stage::Read, Event::Read { count, elapsed_nanos }) => {
                    if count == 0 {
                        Notice::PassEnd
                    } else if self.after(event).stage == Stage::Read {
                        Notice::Progress {
                            pass: Pass::Read,
                            done: (self.read + count) as u64,
                            elapsed_nanos,
                        }
                    } else {
                        Notice::Silent
                    }
                },
                _ => Notice::Silent,
            }
        }
    }

    /// The measurements of the two passes, write first. There are none
    /// before both passes are over, and none of a run that was given up.
    pub open spec fn results(self) -> Option<(PhaseResult, PhaseResult)> {
        if self.stage == Stage::Report || self.stage == Stage::Cleanup || self.stage
            == Stage::Done {
            Some(
                (
                    PhaseResult { bytes_transferred: self.written, elapsed_nanos: self.write_nanos },
                    PhaseResult { bytes_transferred: self.read, elapsed_nanos: self.read_nanos },
                ),
            )
        } else {
            None
        }
    }

    /// The state after the events of `events`, one after the other.
    pub open spec fn after_all(self, events: Seq<Event>) -> MeterState
        decreases events.len(),
    {
        if events.len() == 0 {
            self
        } else {
            self.after_all(events.drop_last()).after(events.last())
        }
    }
}

/// The number of writes that a pass over `total_bytes` takes.
pub open spec fn chunks_needed(total_bytes: u64, block_bytes: u64) -> int {
    (total_bytes + block_bytes - 1) / (block_bytes as int)
}

/// A run. Its state is always one that a run can be in.
pub struct Meter {
    state: MeterState,
}

impl View for Meter {
    type V = MeterState;

    closed spec fn view(&self) -> MeterState {
        self.state
    }
}

impl Meter {
    #[verifier::type_invariant]
    spec fn state_wf(self) -> bool {
        self.state.wf()
    }

    /// A run with the parameters of `config`, before its first action.
    pub fn start(config: &BenchmarkConfig) -> (m: Meter)
        ensures
            m@ == MeterState::initial(
                config@.total_bytes,
                config@.block_bytes,
                config@.keep_file,
            ),
            m@.wf(),
    {
        Meter {
            state: MeterState {
                total_bytes: config.total_bytes(),
                block_bytes: config.block_bytes(),
                keep_file: config.keep_file(),
                stage: Stage::OpenWrite,
                written: 0,
                read: 0,
                write_nanos: 0,
                read_nanos: 0,
            },
        }
    }

    /// The stage of the run. The state of every run is well formed.
    pub fn stage(&self) -> (s: Stage)
        ensures
            s == self@.stage,
            self@.wf(),
    {
        proof {
            use_type_invariant(self);
        }
        self.state.stage
    }

    /// The length of the next write.
    fn chunk(&self) -> (n: u64)
        ensures
            n == self@.chunk(),
            self@.written + n <= self@.total_bytes,
            self@.stage == Stage::Write ==> n > 0,
    {
        proof {
            use_type_invariant(self);
        }
        let left: u64 = self.state.total_bytes - self.state.written;
        if left < self.state.block_bytes {
            left
        } else {
            self.state.block_bytes
        }
    }

    /// The action that is due.
    pub fn pending(&self) -> (a: Action)
        ensures
            a == self@.pending(),
    {
        match self.state.stage {
            Stage::OpenWrite => Action::OpenForWrite,
            Stage::Write => Action::Write { len: self.chunk() },
            Stage::Sync => Action::Sync,
            Stage::OpenRead => Action::OpenForRead,
            Stage::Read => Action::Read { max_len: self.state.block_bytes },
            Stage::Report => Action::Report,
            Stage::Cleanup => Action::RemoveFile,
            Stage::Done => Action::Finish,
            Stage::Failed => Action::Abort,
        }
    }

    /// What there is to show when `event` answers the pending action.
    pub fn notice(&self, event: Event) -> (n: Notice)
        ensures
            n == self@.notice(event),
    {
        if self.state.total_bytes < PROGRESS_THRESHOLD {
            return Notice::Silent;
        }
        match self.state.stage {
            Stage::Write => match event {
                Event::Completed { elapsed_nanos } => Notice::Progress {
                    pass: Pass::Write,
                    done: self.state.written + self.chunk(),
                    elapsed_nanos,
                },
                _ => Notice::Silent,
            },
            Stage::Sync => match event {
                Event::Completed { .. } => Notice::PassEnd,
                _ => Notice::Silent,
            },
            Stage::Read => match event {
                Event::Read { count, elapsed_nanos } => {
                    if count == 0 {
                        Notice::PassEnd
                    } else if count <= self.state.block_bytes && count <= u64::MAX
                        - self.state.read {
                        Notice::Progress {
                            pass: Pass::Read,
                            done: self.state.read + count,
                            elapsed_nanos,
                        }
                    } else {
                        Notice::Silent
                    }
                },
                _ => Notice::Silent,
            },
            _ => Notice::Silent,
        }
    }

    /// Takes the answer to the pending action and returns the action that
    /// is due then, with what there is to show.
    pub fn step(&mut self, event: Event) -> (out: (Action, Notice))
        ensures
            final(self)@ == old(self)@.after(event),
            out.0 == final(self)@.pending(),
            out.1 == old(self)@.notice(event),
    {
        proof {
            use_type_invariant(&*self);
        }
        let notice = self.notice(event);
        let s = self.state;
        let failed = MeterState { stage: Stage::Failed, ..s };
        let next = match s.stage {
            Stage::OpenWrite => match event {
                Event::Completed { .. } => MeterState { stage: Stage::Write, ..s },
                _ => failed,
            },
            Stage::Write => match event {
                Event::Completed { elapsed_nanos } => {
                    let written: u64 = s.written + self.chunk();
                    MeterState {
                        written,
                        write_nanos: elapsed_nanos,
                        stage: if written == s.total_bytes {
                            Stage::Sync
                        } else {
                            Stage::Write
                        },
                        ..s
                    }
                },
                _ => failed,
            },
            Stage::Sync => match event {
                Event::Completed { elapsed_nanos } => MeterState {
                    write_nanos: elapsed_nanos,
                    stage: Stage::OpenRead,
                    ..s
                },
                _ => failed,
            },
            Stage::OpenRead => match event {
                Event::Completed { .. } => MeterState { stage: Stage::Read, ..s },
                _ => failed,
            },
            Stage::Read => match event {
                Event::Read { count, elapsed_nanos } => {
                    if count == 0 {
                        MeterState { read_nanos: elapsed_nanos, stage: Stage::Report, ..s }
                    } else if count <= s.block_bytes && count <= u64::MAX - s.read {
                        MeterState { read: s.read + count, read_nanos: elapsed_nanos, ..s }
                    } else {
                        failed
                    }
                },
                _ => failed,
            },
            Stage::Report => match event {
                Event::Completed { .. } => if s.keep_file {
                    MeterState { stage: Stage::Done, ..s }
                } else {
                    MeterState { stage: Stage::Cleanup, ..s }
                },
                _ => failed,
            },
            Stage::Cleanup => match event {
                Event::Completed { .. } => MeterState { stage: Stage::Done, ..s },
                _ => failed,
            },
            Stage::Done => s,
            Stage::Failed => s,
        };
        self.state = next;
        (self.pending(), notice)
    }

    /// The measurements of the two passes, write first, once both are over.
    pub fn results(&self) -> (r: Option<(PhaseResult, PhaseResult)>)
        ensures
            r == self@.results(),
    {
        match self.state.stage {
            Stage::Report | Stage::Cleanup | Stage::Done => Some(
                (
                    PhaseResult {
                        bytes_transferred: self.state.written,
                        elapsed_nanos: self.state.write_nanos,
                    },
                    PhaseResult {
                        bytes_transferred: self.state.read,
                        elapsed_nanos: self.state.read_nanos,
                    },
                ),
            ),
            _ => None,
        }
    }
}

/// Whether every event of `events` is a success outside a read.
pub open spec fn all_completed(events: Seq<Event>) -> bool {
    forall|i: int| 0 <= i < events.len() ==> (#[trigger] events[i]) is Completed
}

/// Whether every event of `events` is a read that returned one byte or
/// more, and no more than `block_bytes`.
pub open spec fn all_reads(events: Seq<Event>, block_bytes: u64) -> bool {
    forall|i: int|
        0 <= i < events.len() ==> (#[trigger] events[i] matches Event::Read { count, .. } && 0
            < count <= block_bytes)
}

/// The number of bytes that `event` brought, if it is a read.
pub open spec fn bytes_of(event: Event) -> int {
    match event {
        Event::Read { count, .. } => count as int,
        _ => 0,
    }
}

/// The number of bytes that the reads among `events` brought.
pub open spec fn sum_of(events: Seq<Event>) -> int
    decreases events.len(),
{
    if events.len() == 0 {
        0
    } else {
        sum_of(events.drop_last()) + bytes_of(events.last())
    }
}

/// Fewer than `chunks_needed` blocks do not reach the total, and
/// `chunks_needed` blocks do.
pub proof fn lemma_chunks_needed(total_bytes: u64, block_bytes: u64, k: int)
    by (nonlinear_arith)
    requires
        0 < block_bytes,
        0 <= k,
    ensures
        k < chunks_needed(total_bytes, block_bytes) <==> k * block_bytes < total_bytes,
{
}

/// A step leads from a state that a run can be in to another such state,
/// and changes neither the sizes nor whether the file is kept.
pub proof fn lemma_after_keeps_wf(s: MeterState, event: Event)
    requires
        s.wf(),
    ensures
        s.after(event).wf(),
        s.after(event).same_run(s),
{
}

/// A failure gives a run that has not ended up, and a run that is given up
/// stays so: it has no results, and all that is left to do is to leave
/// with failure.
pub proof fn lemma_failure_is_final(s: MeterState, events: Seq<Event>)
    requires
        s.stage != Stage::Done,
    ensures
        s.after(Event::Failed).stage == Stage::Failed,
        s.after(Event::Failed).after_all(events).stage == Stage::Failed,
        s.after(Event::Failed).after_all(events).pending() == Action::Abort,
        s.after(Event::Failed).after_all(events).results() is None,
    decreases events.len(),
{
    if events.len() > 0 {
        lemma_failure_is_final(s, events.drop_last());
    }
}

/// The write pass. From the state in which the file has just been opened, `k`
/// successful writes leave `k` whole blocks written, or the total if that
/// is less. The pass asks for a further write exactly while `k` is less
/// than `chunks_needed`, and asks for the sync then: it writes the total,
/// no more and no less, in `chunks_needed` writes.
pub proof fn lemma_write_pass(s: MeterState, events: Seq<Event>)
    requires
        s.wf(),
        s.stage == Stage::Write,
        s.written == 0,
        all_completed(events),
        events.len() <= chunks_needed(s.total_bytes, s.block_bytes),
    ensures
        ({
            let t = s.after_all(events);
            let k = events.len() as int;
            &&& t.wf()
            &&& t.same_run(s)
            &&& t.written == if k * s.block_bytes < s.total_bytes {
                k * s.block_bytes
            } else {
                s.total_bytes as int
            }
            &&& k < chunks_needed(s.total_bytes, s.block_bytes) ==> t.pending() == (Action::Write {
                len: if (k + 1) * s.block_bytes <= s.total_bytes {
                    s.block_bytes
                } else {
                    (s.total_bytes - k * s.block_bytes) as u64
                },
            })
            &&& k == chunks_needed(s.total_bytes, s.block_bytes) ==> t.pending() == Action::Sync
                && t.written == s.total_bytes
        }),
    decreases events.len(),
{
    let k = events.len() as int;
    let b = s.block_bytes as int;
    lemma_chunks_needed(s.total_bytes, s.block_bytes, k);
    if k > 0 {
        let before = events.drop_last();
        lemma_write_pass(s, before);
        lemma_chunks_needed(s.total_bytes, s.block_bytes, k - 1);
        let p = s.after_all(before);
        assert(events.last() is Completed);
        assert((k - 1) * b + b == k * b) by (nonlinear_arith);
    }
    assert((k + 1) * b == k * b + b) by (nonlinear_arith);
}

/// The read pass. From the state in which the file has just been opened for
/// reading, the reads of `reads`, none of them empty or larger than a block,
/// followed by a read of nothing, end the pass with the sum of what they
/// brought as the number of bytes read, and with the time of the last read
/// as the time of the pass.
pub proof fn lemma_read_pass(s: MeterState, reads: Seq<Event>, elapsed_nanos: u64)
    requires
        s.wf(),
        s.stage == Stage::Read,
        s.read == 0,
        all_reads(reads, s.block_bytes),
        sum_of(reads) <= u64::MAX,
    ensures
        ({
            let t = s.after_all(reads);
            let end = t.after(Event::Read { count: 0, elapsed_nanos });
            &&& t.stage == Stage::Read
            &&& t.same_run(s)
            &&& t.read == sum_of(reads)
            &&& end.pending() == Action::Report
            &&& end.results() matches Some(r)
            &&& r.0.bytes_transferred == s.total_bytes
            &&& r.1 == (PhaseResult { bytes_transferred: sum_of(reads) as u64, elapsed_nanos })
        }),
    decreases reads.len(),
{
    if reads.len() > 0 {
        let before = reads.drop_last();
        assert forall|i: int| 0 <= i < before.len() implies (#[trigger] before[i] matches Event::Read {
            count,
            ..
        } && 0 < count <= s.block_bytes) by {
            assert(before[i] == reads[i]);
        }
        assert(reads.last() == reads[reads.len() - 1]);
        assert(sum_of(before) >= 0) by {
            lemma_sum_of_is_not_negative(before);
        }
        lemma_read_pass(s, before, elapsed_nanos);
    }
}

/// Reads bring no less than nothing.
pub proof fn lemma_sum_of_is_not_negative(events: Seq<Event>)
    ensures
        sum_of(events) >= 0,
    decreases events.len(),
{
    if events.len() > 0 {
        lemma_sum_of_is_not_negative(events.drop_last());
    }
}

/// The end of a run. Once the results are shown, a run that keeps its file
/// has nothing left to do. One that does not asks for the deletion of the
/// file, ends well if the file is deleted, and is given up if it is not: no
/// run that was to delete its file ends well with the file left.
pub proof fn lemma_cleanup(s: MeterState, event: Event, removal: Event)
    requires
        s.stage == Stage::Report,
        event is Completed,
    ensures
        s.keep_file ==> s.after(event).pending() == Action::Finish,
        !s.keep_file ==> s.after(event).pending() == Action::RemoveFile,
        !s.keep_file && removal is Completed ==> s.after(event).after(removal).pending()
            == Action::Finish,
        !s.keep_file && !(removal is Completed) ==> s.after(event).after(removal).pending()
            == Action::Abort,
        forall|t: MeterState| #[trigger] t.pending() == Action::RemoveFile ==> t.stage == Stage::Cleanup,
{
}

/// A run ends well in one of two ways only: the results were shown and the
/// file is kept, or the file was deleted.
pub proof fn lemma_ends_well(s: MeterState, event: Event)
    requires
        s.wf(),
        s.stage != Stage::Done,
        s.after(event).stage == Stage::Done,
    ensures
        event is Completed,
        (s.stage == Stage::Report && s.keep_file) || (s.stage == Stage::Cleanup && !s.keep_file),
        s.after(event).results() == s.results(),
{
}

} // verus!
