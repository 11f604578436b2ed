//! Rules of a pseudo-terminal session.
//!
//! A session owns a shell behind a pseudo-terminal and a thread that reads
//! what the shell prints. The system calls are made elsewhere; here is what
//! the session decides: its fixed settings, what the reader thread does with
//! the result of each read, and how teardown waits for that thread.

use vstd::prelude::*;

verus! {

/// Rows of the pseudo-terminal.
pub const PTY_ROWS: u16 = 24;

/// Columns of the pseudo-terminal.
pub const PTY_COLS: u16 = 80;

/// The shell that a session runs.
pub const SHELL: &'static str = "zsh";

/// The environment variable that tells the shell what terminal it talks to.
pub const TERM_VARIABLE: &'static str = "TERM";

/// Its value: a terminal with colors, so that the shell runs interactively.
pub const TERM_VALUE: &'static str = "xterm-256color";

/// Size in bytes of the buffer that the reader thread reads into.
pub const READ_BUFFER_SIZE: usize = 8192;

/// How long teardown waits for the reader thread, in milliseconds.
pub const SHUTDOWN_TIMEOUT_MS: u64 = 2000;

/// How long teardown sleeps between two looks at the reader thread, in
/// milliseconds.
pub const SHUTDOWN_POLL_MS: u64 = 50;

/// What one blocking read of the shell's output came back with.
#[derive(Debug, Clone, Copy, PartialEq, Eq, Structural)]
pub enum ReadOutcome {
    /// The read succeeded and filled this many bytes of the buffer.
    Read(usize),
    /// The read failed.
    Failed,
}

/// Why the reader thread stopped.
#[derive(Debug, Clone, Copy, PartialEq, Eq, Structural)]
pub enum StopReason {
    /// A read of length zero: the shell has closed its side.
    EndOfStream,
    /// A read failed. There is no retry.
    ReadError,
}

/// Where the reader thread sends what it has read.
#[derive(Debug, Clone, Copy, PartialEq, Eq, Structural)]
pub enum OutputRoute {
    /// To the callback that the session was created with.
    Callback,
    /// To standard output, flushed after every chunk.
    Stdout,
}

/// What the reader thread does after a read.
#[derive(Debug, Clone, Copy, PartialEq, Eq, Structural)]
pub enum ReaderAction {
    /// Hand the first `len` bytes of the buffer to `route`, as one chunk, and
    /// read again.
    Deliver { len: usize, route: OutputRoute },
    /// Leave the loop.
    Stop(StopReason),
}

/// The reader thread's state between two reads.
#[derive(Debug, Clone, Copy, PartialEq, Eq, Structural)]
pub struct ReaderState {
    /// Where output goes.
    pub route: OutputRoute,
    /// Bytes delivered so far.
    pub total_bytes: usize,
    /// Set once the loop has ended.
    pub stopped: Option<StopReason>,
}

/// The state that follows `state` when a read comes back with `outcome`.
pub open spec fn reader_next(state: ReaderState, outcome: ReadOutcome) -> ReaderState {
    if state.stopped is Some {
        state
    } else {
        match outcome {
            ReadOutcome::Failed => ReaderState { stopped: Some(StopReason::ReadError), ..state },
            ReadOutcome::Read(len) => if len == 0 {
                ReaderState { stopped: Some(StopReason::EndOfStream), ..state }
            } else {
                ReaderState { total_bytes: (state.total_bytes + len) as usize, ..state }
            },
        }
    }
}

/// What the reader thread does in `state` when a read comes back with
/// `outcome`.
pub open spec fn reader_action(state: ReaderState, outcome: ReadOutcome) -> ReaderAction {
    match reader_next(state, outcome).stopped {
        Some(reason) => ReaderAction::Stop(reason),
        None => ReaderAction::Deliver { len: outcome->Read_0, route: state.route },
    }
}

/// The count of delivered bytes still fits after `outcome`.
pub open spec fn reader_can_take(state: ReaderState, outcome: ReadOutcome) -> bool {
    outcome matches ReadOutcome::Read(len) ==> state.total_bytes + len <= usize::MAX
}

impl ReaderState {
    /// The state of a reader thread that has not read yet. With a callback
    /// the output goes to it, without one to standard output.
    pub fn new(has_callback: bool) -> (state: Self)
        ensures
            state == (ReaderState {
                route: if has_callback {
                    OutputRoute::Callback
                } else {
                    OutputRoute::Stdout
                },
                total_bytes: 0,
                stopped: None,
            }),
    {
        let route = if has_callback {
            OutputRoute::Callback
        } else {
            OutputRoute::Stdout
        };
        ReaderState { route, total_bytes: 0, stopped: None }
    }

    /// Whether `on_read` may be called with `outcome`: the count of
    /// delivered bytes must not overflow.
    pub fn can_take(&self, outcome: ReadOutcome) -> (ok: bool)
        ensures
            ok == reader_can_take(*self, outcome),
    {
        match outcome {
            ReadOutcome::Read(len) => len <= usize::MAX - self.total_bytes,
            ReadOutcome::Failed => true,
        }
    }

    /// Takes the result of one read and says what to do with it.
    ///
    /// A read of length zero is the end of the stream and a failed read is
    /// the end of the session: both stop the loop. Any other read is
    /// delivered whole, as one chunk. Once stopped, the reader stays stopped.
    pub fn on_read(&mut self, outcome: ReadOutcome) -> (action: ReaderAction)
        requires
            reader_can_take(*old(self), outcome),
        ensures
            *final(self) == reader_next(*old(self), outcome),
            action == reader_action(*old(self), outcome),
    {
        if let Some(reason) = self.stopped {
            return ReaderAction::Stop(reason);
        }
        match outcome {
            ReadOutcome::Failed => {
                self.stopped = Some(StopReason::ReadError);
                ReaderAction::Stop(StopReason::ReadError)
            },
            ReadOutcome::Read(len) => {
                if len == 0 {
                    self.stopped = Some(StopReason::EndOfStream);
                    ReaderAction::Stop(StopReason::EndOfStream)
                } else {
                    self.total_bytes = self.total_bytes + len;
                    ReaderAction::Deliver { len, route: self.route }
                }
            },
        }
    }
}

/// What follows the write of a payload to the shell's input.
#[derive(Debug, Clone, Copy, PartialEq, Eq, Structural)]
pub enum RelayStep {
    /// The write succeeded: flush at once, so that the shell sees the input.
    Flush,
    /// The write failed: report it and drop the input. Nothing is flushed.
    ReportWriteFailure,
}

/// Input is relayed one payload at a time, each write followed by a flush of
/// its own. A payload whose write failed is lost, and nobody is told but the
/// log.
pub fn after_write(written: bool) -> (step: RelayStep)
    ensures
        step == if written {
            RelayStep::Flush
        } else {
            RelayStep::ReportWriteFailure
        },
{
    if written {
        RelayStep::Flush
    } else {
        RelayStep::ReportWriteFailure
    }
}

/// What teardown does at one look at the reader thread.
#[derive(Debug, Clone, Copy, PartialEq, Eq, Structural)]
pub enum TeardownStep {
    /// The thread has finished: join it.
    Join,
    /// The grace period is over: let go of the thread's handle.
    Abandon,
    /// Sleep this many milliseconds, then look again.
    Wait(u64),
}

/// What teardown does when the reader thread has or has not finished and
/// `elapsed_ms` milliseconds have passed since teardown began.
pub open spec fn teardown_rule(finished: bool, elapsed_ms: u64) -> TeardownStep {
    if finished {
        TeardownStep::Join
    } else if elapsed_ms >= SHUTDOWN_TIMEOUT_MS {
        TeardownStep::Abandon
    } else {
        TeardownStep::Wait(SHUTDOWN_POLL_MS)
    }
}

/// One look at the reader thread during teardown.
pub fn teardown_step(finished: bool, elapsed_ms: u64) -> (step: TeardownStep)
    ensures
        step == teardown_rule(finished, elapsed_ms),
{
    if finished {
        TeardownStep::Join
    } else if elapsed_ms >= SHUTDOWN_TIMEOUT_MS {
        TeardownStep::Abandon
    } else {
        TeardownStep::Wait(SHUTDOWN_POLL_MS)
    }
}

/// How many more times teardown may sleep, `elapsed_ms` milliseconds in.
pub open spec fn polls_left(elapsed_ms: int) -> nat {
    if elapsed_ms >= SHUTDOWN_TIMEOUT_MS {
        0
    } else {
        ((SHUTDOWN_TIMEOUT_MS - elapsed_ms + SHUTDOWN_POLL_MS - 1) / (SHUTDOWN_POLL_MS as int)) as nat
    }
}

/// Teardown cannot wait forever: it sleeps only while polls are left, there
/// are 40 of them at the start, and each sleep of the length it asked for
/// uses one up.
pub proof fn lemma_teardown_is_bounded(elapsed_ms: u64, later_ms: u64)
    ensures
        polls_left(0) == 40,
        teardown_rule(false, elapsed_ms) is Wait <==> polls_left(elapsed_ms as int) > 0,
        teardown_rule(false, elapsed_ms) matches TeardownStep::Wait(pause) && later_ms
            >= elapsed_ms + pause ==> polls_left(later_ms as int) < polls_left(elapsed_ms as int),
{
}

} // verus!
