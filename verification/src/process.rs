//! Shared per-process state and the watcher protocol.
//!
//! One runner drains a subprocess's streams into the shared log and records
//! the termination result exactly once; any number of watchers tail the log
//! from their own private cursor and observe the termination result only
//! after draining every byte that precedes it. The exclusive-access domain
//! (a lock) and the suspension on the change signal belong to the
//! surrounding runtime; everything the runner and the watchers decide is
//! here, as functions of the shared state and the private cursor.

use crate::output::{drain_from, lemma_round_trip, next_read_end, Output, OutputPos};
use crate::signal::ChangeSignal;
use vstd::prelude::*;
use vstd::slice::slice_to_vec;

verus! {

/// One event observed by a watcher: a run of output bytes, or the terminal
/// exit event carrying the recorded exit code (`None` when the process
/// exited without a code).
#[derive(Debug, PartialEq, Eq)]
pub enum WatchResult {
    Exited(Option<i32>),
    OutputChunk(Vec<u8>),
}

/// What the runner and the watchers share: the output log and the
/// termination result, present exactly once when the process has finished.
pub struct Data {
    pub output: Output,
    pub exit_code: Option<Option<i32>>,
}

impl Data {
    pub open spec fn wf(&self) -> bool {
        self.output.wf()
    }

    /// State of a process that has produced nothing and is still running.
    pub fn new() -> (r: Data)
        ensures
            r.wf(),
            r.output@ == Seq::<u8>::empty(),
            r.exit_code is None,
    {
        Data { output: Output::new(), exit_code: None }
    }
}

impl Default for Data {
    fn default() -> (r: Data)
        ensures
            r.wf(),
            r.output@ == Seq::<u8>::empty(),
            r.exit_code is None,
    {
        Data::new()
    }
}

/// The shared state paired with its change signal. Every mutation notifies
/// the signal exactly once, so a watcher that re-checks state after each
/// wake-up never misses an update.
pub struct ProcessState {
    pub data: Data,
    pub signal: ChangeSignal,
}

impl ProcessState {
    pub open spec fn wf(&self) -> bool {
        self.data.wf()
    }

    /// Fresh state for a newly submitted command.
    pub fn new() -> (r: ProcessState)
        ensures
            r.wf(),
            r.data.output@ == Seq::<u8>::empty(),
            r.data.exit_code is None,
            r.signal@ == 0,
    {
        ProcessState { data: Data::new(), signal: ChangeSignal::new() }
    }

    /// Append one run of stream bytes to the log and publish the change.
    /// The termination result is untouched; committed bytes are untouched.
    pub fn append_output(&mut self, chunk: &[u8])
        requires
            old(self).wf(),
            old(self).data.output@.len() + chunk@.len() <= usize::MAX,
        ensures
            final(self).wf(),
            final(self).data.output@ == old(self).data.output@ + chunk@,
            final(self).data.exit_code == old(self).data.exit_code,
            final(self).signal@ != old(self).signal@,
    {
        self.data.output.append(chunk);
        self.signal.notify();
    }

    /// Record the termination result — exactly once per process — and
    /// publish the change. The log is untouched.
    pub fn record_exit(&mut self, code: Option<i32>)
        requires
            old(self).wf(),
            old(self).data.exit_code is None,
        ensures
            final(self).wf(),
            final(self).data.exit_code == Some(code),
            final(self).data.output@ == old(self).data.output@,
            final(self).signal@ != old(self).signal@,
    {
        self.data.exit_code = Some(code);
        self.signal.notify();
    }
}

/// A per-consumer cursor into a shared process state. Each watcher owns its
/// cursor; polling reads the shared state and can affect nothing but the
/// cursor, so watchers never disturb one another.
pub struct Watcher {
    pos: OutputPos,
}

impl Watcher {
    /// The byte offset this watcher will read next.
    pub closed spec fn cursor(&self) -> int {
        self.pos@
    }

    /// A watcher starting at the beginning of the log. Usable even after
    /// the process has finished: it replays the full log first.
    pub fn new() -> (r: Watcher)
        ensures
            r.cursor() == 0,
    {
        Watcher { pos: OutputPos::default() }
    }

    /// One poll of the shared state. Pending output always wins: while the
    /// cursor trails the log, the bytes up to the next block boundary are
    /// returned and the cursor advances. Only a watcher that has drained
    /// everything observes the termination result; with the log drained and
    /// the process still running, `None` asks the caller to wait on the
    /// change signal and poll again.
    pub fn poll(&mut self, data: &Data) -> (r: Option<WatchResult>)
        requires
            data.wf(),
        ensures
            ({
                let log = data.output@;
                let pos = old(self).cursor();
                if pos < log.len() {
                    &&& final(self).cursor() == next_read_end(log.len() as int, pos)
                    &&& pos < final(self).cursor() <= log.len()
                    &&& r matches Some(WatchResult::OutputChunk(c)) && c@ == log.subrange(
                        pos,
                        final(self).cursor(),
                    )
                } else {
                    &&& final(self).cursor() == pos
                    &&& match data.exit_code {
                        Some(code) => r == Some(WatchResult::Exited(code)),
                        None => r is None,
                    }
                }
            }),
    {
        match data.output.try_read(self.pos) {
            Some((next, chunk)) => {
                self.pos = next;
                Some(WatchResult::OutputChunk(slice_to_vec(chunk)))
            },
            None => match data.exit_code {
                Some(code) => Some(WatchResult::Exited(code)),
                None => None,
            },
        }
    }
}

/// Why a run failed without producing a termination result.
#[derive(Clone, Copy, Debug, PartialEq, Eq, Structural)]
pub enum RunError {
    /// The operating system refused to start the process.
    SpawnFailed,
    /// Waiting for the process to report completion failed.
    WaitFailed,
}

impl RunError {
    /// The message surfaced to whoever launched the run.
    pub fn message(&self) -> (r: String)
        ensures
            *self is SpawnFailed ==> r@ == "Could not spawn process"@,
            *self is WaitFailed ==> r@ == "Could not wait for process"@,
    {
        match self {
            RunError::SpawnFailed => "Could not spawn process".to_string(),
            RunError::WaitFailed => "Could not wait for process".to_string(),
        }
    }
}

/// What one read of a subprocess stream produced: a run of bytes, or the
/// end of that stream (a zero-byte read or a read error — partial output
/// is preserved and the stream is simply done).
pub enum StreamEvent {
    Data(Vec<u8>),
    Ended,
}

/// One step of a stream-draining loop: append the bytes of a `Data` event
/// to the shared log and continue; stop silently on `Ended`. Returns
/// whether the loop should keep reading.
pub fn drain_step(state: &mut ProcessState, event: &StreamEvent) -> (cont: bool)
    requires
        old(state).wf(),
        event matches StreamEvent::Data(b) ==> old(state).data.output@.len() + b@.len()
            <= usize::MAX,
    ensures
        final(state).wf(),
        match event {
            StreamEvent::Data(b) => {
                &&& cont
                &&& final(state).data.output@ == old(state).data.output@ + b@
                &&& final(state).data.exit_code == old(state).data.exit_code
                &&& final(state).signal@ != old(state).signal@
            },
            StreamEvent::Ended => !cont && *final(state) == *old(state),
        },
{
    match event {
        StreamEvent::Data(b) => {
            state.append_output(b.as_slice());
            true
        },
        StreamEvent::Ended => false,
    }
}

/// How waiting for process completion ended: the termination status (an
/// exit code, or none when the process was ended by the system), or a
/// failure of the wait itself.
pub enum WaitOutcome {
    Completed(Option<i32>),
    Failed,
}

/// The runner's final step, once both stream drains have ended. On
/// completion the termination result is recorded — exactly once — and the
/// code is handed back to the run's caller. When the wait itself failed,
/// no termination result is written and the failure is surfaced instead.
pub fn finish_run(state: &mut ProcessState, outcome: &WaitOutcome) -> (r: Result<
    Option<i32>,
    RunError,
>)
    requires
        old(state).wf(),
        old(state).data.exit_code is None,
    ensures
        final(state).wf(),
        match outcome {
            WaitOutcome::Completed(code) => {
                &&& r == Ok::<Option<i32>, RunError>(*code)
                &&& final(state).data.exit_code == Some(*code)
                &&& final(state).data.output@ == old(state).data.output@
                &&& final(state).signal@ != old(state).signal@
            },
            WaitOutcome::Failed => {
                &&& r == Err::<Option<i32>, RunError>(RunError::WaitFailed)
                &&& *final(state) == *old(state)
            },
        },
{
    match outcome {
        WaitOutcome::Completed(code) => {
            state.record_exit(*code);
            Ok(*code)
        },
        WaitOutcome::Failed => Err(RunError::WaitFailed),
    }
}

/// A submitted command together with its shared state. The surrounding
/// runtime shares `state` between the runner and the watchers under one
/// exclusive-access domain.
pub struct Process {
    pub command: String,
    pub state: ProcessState,
}

impl Process {
    /// A freshly submitted command: empty log, still running.
    pub fn new(command: String) -> (r: Process)
        ensures
            r.command@ == command@,
            r.state.wf(),
            r.state.data.output@ == Seq::<u8>::empty(),
            r.state.data.exit_code is None,
            r.state.signal@ == 0,
    {
        Process { command, state: ProcessState::new() }
    }

    /// A new watcher over this process, starting at the beginning of the
    /// log.
    pub fn watch(&self) -> (r: Watcher)
        ensures
            r.cursor() == 0,
    {
        Watcher::new()
    }
}

/// Drain-before-exit law: a watcher whose cursor still trails the log —
/// even when termination has already been recorded — is handed chunks that
/// cover every remaining byte; by `Watcher::poll`'s contract it can observe
/// `Exited` only once its cursor has reached the end of the log.
pub proof fn lemma_drain_before_exit(log: Seq<u8>, pos: int)
    requires
        0 <= pos <= log.len(),
    ensures
        drain_from(log, pos).flatten() == log.subrange(pos, log.len() as int),
        pos < log.len() ==> drain_from(log, pos).len() > 0,
{
    lemma_round_trip(log, pos);
}

/// Independent-watchers law: what a watcher observes is a function of the
/// shared state and its own cursor alone. Two watchers, wherever each
/// stands in the log, each drain the complete remainder from their own
/// cursor; the `Exited` event each then observes carries the one recorded
/// termination result.
pub proof fn lemma_watchers_independent(log: Seq<u8>, pos1: int, pos2: int)
    requires
        0 <= pos1 <= log.len(),
        0 <= pos2 <= log.len(),
    ensures
        drain_from(log, pos1).flatten() == log.subrange(pos1, log.len() as int),
        drain_from(log, pos2).flatten() == log.subrange(pos2, log.len() as int),
{
    lemma_round_trip(log, pos1);
    lemma_round_trip(log, pos2);
}

} // verus!
