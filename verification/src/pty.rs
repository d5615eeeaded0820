//! Decisions of a pseudo console's helper threads. The output thread hands
//! what the host prints to a bounded queue, pauses while the queue is full,
//! and once shutdown is raised drains and discards, so that closing the
//! console never waits on a stalled reader. The teardown reports the first
//! thing that went wrong.
use vstd::prelude::*;

use crate::text::{push_str, string_from_chars, text_of};

verus! {

/// Where the output thread stands.
#[derive(Debug, Clone, Copy, PartialEq, Eq, Structural)]
pub enum ReaderPhase {
    /// Waiting on the next read.
    Reading,
    /// Handing a chunk of output to the queue.
    DeliveringChunk,
    /// Handing a read error to the queue.
    DeliveringError,
    /// Finished.
    Done,
}

/// What the output thread observed; `shutdown` is the shutdown flag as
/// loaded right after.
#[derive(Debug, Clone, Copy, PartialEq, Eq, Structural)]
pub enum ReaderEvent {
    /// A read returned `count` bytes (`0`: the console's output ended).
    Read { count: usize, shutdown: bool },
    ReadFailed { shutdown: bool },
    /// The queue took the message.
    Delivered,
    /// The queue is full; the message came back.
    QueueFull,
    /// Nobody reads the queue any more.
    QueueClosed,
    /// The pause after a full queue is over.
    Slept { shutdown: bool },
}

/// What the output thread does, in the order given.
#[derive(Debug, Clone, Copy, PartialEq, Eq, Structural)]
pub enum ReaderAction {
    /// Read from the console.
    Read,
    /// Try to hand the message (the chunk or the error) to the queue.
    Deliver,
    /// Pause before trying again.
    Sleep,
    /// Raise the shutdown flag.
    RaiseShutdown,
    /// End the thread.
    Exit,
}

/// The output thread's next phase and actions.
pub open spec fn reader_step(phase: ReaderPhase, e: ReaderEvent) -> (ReaderPhase, Seq<ReaderAction>) {
    match (phase, e) {
        (ReaderPhase::Reading, ReaderEvent::Read { count, shutdown }) => if count == 0 {
            (ReaderPhase::Done, seq![ReaderAction::Exit])
        } else if shutdown {
            (ReaderPhase::Reading, seq![ReaderAction::Read])
        } else {
            (ReaderPhase::DeliveringChunk, seq![ReaderAction::Deliver])
        },
        (ReaderPhase::Reading, ReaderEvent::ReadFailed { shutdown }) => if shutdown {
            (ReaderPhase::Done, seq![ReaderAction::Exit])
        } else {
            (ReaderPhase::DeliveringError, seq![ReaderAction::Deliver])
        },
        (ReaderPhase::DeliveringChunk, ReaderEvent::Delivered) => (
            ReaderPhase::Reading,
            seq![ReaderAction::Read],
        ),
        (ReaderPhase::DeliveringChunk, ReaderEvent::QueueClosed) => (
            ReaderPhase::Reading,
            seq![ReaderAction::RaiseShutdown, ReaderAction::Read],
        ),
        (ReaderPhase::DeliveringChunk, ReaderEvent::Slept { shutdown }) => if shutdown {
            (ReaderPhase::Reading, seq![ReaderAction::Read])
        } else {
            (ReaderPhase::DeliveringChunk, seq![ReaderAction::Deliver])
        },
        (ReaderPhase::DeliveringError, ReaderEvent::Slept { shutdown }) => if shutdown {
            (ReaderPhase::Done, seq![ReaderAction::Exit])
        } else {
            (ReaderPhase::DeliveringError, seq![ReaderAction::Deliver])
        },
        (ReaderPhase::DeliveringError, ReaderEvent::Delivered) => (
            ReaderPhase::Done,
            seq![ReaderAction::Exit],
        ),
        (ReaderPhase::DeliveringError, ReaderEvent::QueueClosed) => (
            ReaderPhase::Done,
            seq![ReaderAction::Exit],
        ),
        (ReaderPhase::DeliveringChunk, ReaderEvent::QueueFull) => (
            ReaderPhase::DeliveringChunk,
            seq![ReaderAction::Sleep],
        ),
        (ReaderPhase::DeliveringError, ReaderEvent::QueueFull) => (
            ReaderPhase::DeliveringError,
            seq![ReaderAction::Sleep],
        ),
        _ => (phase, Seq::empty()),
    }
}

/// The output thread's state.
pub struct ReaderMachine {
    pub phase: ReaderPhase,
}

impl ReaderMachine {
    pub fn new() -> (m: Self)
        ensures
            m.phase == ReaderPhase::Reading,
    {
        ReaderMachine { phase: ReaderPhase::Reading }
    }

    /// Decide what to do on `e`; see [`reader_step`].
    pub fn step(&mut self, e: ReaderEvent) -> (acts: Vec<ReaderAction>)
        ensures
            (final(self).phase, acts@) == reader_step(old(self).phase, e),
    {
        let (next, acts) = match (self.phase, e) {
            (ReaderPhase::Reading, ReaderEvent::Read { count, shutdown }) => {
                if count == 0 {
                    (ReaderPhase::Done, vec![ReaderAction::Exit])
                } else if shutdown {
                    (ReaderPhase::Reading, vec![ReaderAction::Read])
                } else {
                    (ReaderPhase::DeliveringChunk, vec![ReaderAction::Deliver])
                }
            },
            (ReaderPhase::Reading, ReaderEvent::ReadFailed { shutdown }) => {
                if shutdown {
                    (ReaderPhase::Done, vec![ReaderAction::Exit])
                } else {
                    (ReaderPhase::DeliveringError, vec![ReaderAction::Deliver])
                }
            },
            (ReaderPhase::DeliveringChunk, ReaderEvent::Delivered) => (
                ReaderPhase::Reading,
                vec![ReaderAction::Read],
            ),
            (ReaderPhase::DeliveringChunk, ReaderEvent::QueueClosed) => (
                ReaderPhase::Reading,
                vec![ReaderAction::RaiseShutdown, ReaderAction::Read],
            ),
            (ReaderPhase::DeliveringChunk, ReaderEvent::Slept { shutdown }) => {
                if shutdown {
                    (ReaderPhase::Reading, vec![ReaderAction::Read])
                } else {
                    (ReaderPhase::DeliveringChunk, vec![ReaderAction::Deliver])
                }
            },
            (ReaderPhase::DeliveringError, ReaderEvent::Slept { shutdown }) => {
                if shutdown {
                    (ReaderPhase::Done, vec![ReaderAction::Exit])
                } else {
                    (ReaderPhase::DeliveringError, vec![ReaderAction::Deliver])
                }
            },
            (ReaderPhase::DeliveringError, ReaderEvent::Delivered) => (
                ReaderPhase::Done,
                vec![ReaderAction::Exit],
            ),
            (ReaderPhase::DeliveringError, ReaderEvent::QueueClosed) => (
                ReaderPhase::Done,
                vec![ReaderAction::Exit],
            ),
            (ReaderPhase::DeliveringChunk, ReaderEvent::QueueFull) => (
                ReaderPhase::DeliveringChunk,
                vec![ReaderAction::Sleep],
            ),
            (ReaderPhase::DeliveringError, ReaderEvent::QueueFull) => (
                ReaderPhase::DeliveringError,
                vec![ReaderAction::Sleep],
            ),
            _ => (self.phase, Vec::new()),
        };
        self.phase = next;
        proof {
            let (p, s) = reader_step(old(self).phase, e);
            assert(acts@ =~= s);
        }
        acts
    }
}

/// How many times the teardown looks for the child's exit, 10 ms apart.
pub const CHILD_EXIT_POLLS: usize = 200;

/// What one look for the child's exit found.
pub enum ExitPoll {
    Exited,
    Running,
    /// The query failed with this text.
    Failed(String),
}

/// What the teardown does after a look.
pub enum TeardownStep {
    /// Look again.
    Again,
    /// The teardown's outcome.
    Finish(Result<(), String>),
}

/// The teardown's outcome once the helper threads are joined: a panic of
/// the reader, then of the writer, is reported first.
pub fn joined_outcome(reader_ok: bool, writer_ok: bool) -> (r: Result<(), String>)
    ensures
        r is Ok <==> reader_ok && writer_ok,
        !reader_ok ==> (r matches Err(m) && m@ == "ConPTY reader thread panicked"@),
        reader_ok && !writer_ok ==> (r matches Err(m) && m@ == "ConPTY writer thread panicked"@),
{
    if !reader_ok {
        Err(text_of("ConPTY reader thread panicked"))
    } else if !writer_ok {
        Err(text_of("ConPTY writer thread panicked"))
    } else {
        Ok(())
    }
}

/// After look number `done` (from zero) found `poll`: the child exited,
/// the query failed, the child still runs after the last look, or look
/// again. A look that finds the child running is followed by a pause of
/// its own.
pub fn exit_poll_step(done: usize, poll: &ExitPoll) -> (s: TeardownStep)
    ensures
        match poll {
            ExitPoll::Exited => s == TeardownStep::Finish(Ok(())),
            ExitPoll::Failed(t) => s matches TeardownStep::Finish(Err(m)) && m@
                == "failed to query ConPTY child exit: "@ + t@,
            ExitPoll::Running => if done + 1 < CHILD_EXIT_POLLS {
                s is Again
            } else {
                s matches TeardownStep::Finish(Err(m)) && m@
                    == "ConPTY child did not exit within two seconds"@
            },
        },
{
    match poll {
        ExitPoll::Exited => TeardownStep::Finish(Ok(())),
        ExitPoll::Failed(t) => {
            let mut out: Vec<char> = Vec::new();
            push_str(&mut out, "failed to query ConPTY child exit: ");
            push_str(&mut out, t.as_str());
            TeardownStep::Finish(Err(string_from_chars(&out)))
        },
        ExitPoll::Running => {
            if done < CHILD_EXIT_POLLS - 1 {
                TeardownStep::Again
            } else {
                TeardownStep::Finish(Err(text_of("ConPTY child did not exit within two seconds")))
            }
        },
    }
}

} // verus!
