//! Subprocess shepherding: stdio wiring decisions, exit-code mapping, and
//! the flush discipline. The transport launches the child and runs the
//! stdio copy tasks; the shepherd state here admits a result only after
//! the child has exited and every copy task has been joined, so all output
//! buffered before exit reaches the caller's sinks.

use vstd::prelude::*;
use crate::protocol::{RpcError, SpawnResult};

verus! {

/// How one child stdio stream is wired.
pub enum StdioMode {
    /// A caller stream is present: pipe the child fd to it.
    Piped,
    /// No caller stream: wire the fd to the null device.
    Null,
}

/// Pipe a child fd exactly when the caller supplied a stream for it.
pub fn stdio_mode(attached: bool) -> (r: StdioMode)
    ensures
        r is Piped <==> attached,
{
    if attached {
        StdioMode::Piped
    } else {
        StdioMode::Null
    }
}

/// The error reported when the child could not be started.
pub fn spawn_failure(message: String) -> (r: RpcError)
    ensures
        r matches RpcError::ProcessSpawnFailed(m) && m@ == message@,
{
    RpcError::ProcessSpawnFailed(message)
}

/// One event in the life of a shepherded child.
pub enum ShepherdEvent {
    /// One stdio copy task ran to completion.
    CopyDone,
    /// The child exited, with its signed exit code if the platform gave
    /// one.
    Exited(Option<i32>),
}

/// The state of one shepherded child: how many copy tasks are still
/// running, and the exit observation.
pub struct SpawnShepherd {
    copies_pending: usize,
    exit: Option<Option<i32>>,
}

impl SpawnShepherd {
    /// How many stdio copy tasks have not been joined yet.
    pub closed spec fn copies_pending(self) -> nat {
        self.copies_pending as nat
    }

    /// The exit observation: the child's code once it exited.
    pub closed spec fn exit(self) -> Option<Option<i32>> {
        self.exit
    }

    /// Shepherd a child with `copies` stdio copy tasks.
    pub fn new(copies: usize) -> (r: SpawnShepherd)
        ensures
            r.copies_pending() == copies,
            r.exit() is None,
    {
        SpawnShepherd { copies_pending: copies, exit: None }
    }

    /// Join one finished copy task.
    pub fn copy_done(&mut self)
        requires
            old(self).copies_pending() > 0,
        ensures
            final(self).copies_pending() == old(self).copies_pending() - 1,
            final(self).exit() == old(self).exit(),
    {
        self.copies_pending = self.copies_pending - 1;
    }

    /// Record the child's exit.
    pub fn child_exited(&mut self, code: Option<i32>)
        requires
            old(self).exit() is None,
        ensures
            final(self).copies_pending() == old(self).copies_pending(),
            final(self).exit() == Some(code),
    {
        self.exit = Some(code);
    }

    /// Produce the spawn result. This demands that the child has exited
    /// and that every copy task has been joined: output buffered before
    /// exit has been flushed to the caller's sinks by then. The exit code
    /// is the child's signed code, or -1 where the platform gave none.
    pub fn finish(&self, message: String) -> (r: SpawnResult)
        requires
            self.copies_pending() == 0,
            self.exit() is Some,
        ensures
            r.message@ == message@,
            r.exit_code == (match self.exit()->0 {
                Some(c) => c,
                None => -1i32,
            }),
    {
        let code: i32 = match &self.exit {
            Some(Some(c)) => *c,
            Some(None) => -1,
            None => -1,
        };
        SpawnResult { message, exit_code: code }
    }
}

/// The shepherd state after a sequence of events, starting from `n`
/// running copy tasks.
pub open spec fn pending_after(n: nat, evs: Seq<ShepherdEvent>) -> nat
    decreases evs.len(),
{
    if evs.len() == 0 {
        n
    } else {
        let p = pending_after(n, evs.drop_last());
        if evs.last() is CopyDone {
            if p > 0 {
                (p - 1) as nat
            } else {
                p
            }
        } else {
            p
        }
    }
}

/// Whether a sequence of events is a run of the shepherd: no copy task is
/// joined twice (a `CopyDone` only arrives while copies are pending).
pub open spec fn valid_run(n: nat, evs: Seq<ShepherdEvent>) -> bool
    decreases evs.len(),
{
    if evs.len() == 0 {
        true
    } else {
        valid_run(n, evs.drop_last()) && (evs.last() is CopyDone ==> pending_after(
            n,
            evs.drop_last(),
        ) > 0)
    }
}

/// How many copy tasks completed in a sequence of events.
pub open spec fn copies_completed(evs: Seq<ShepherdEvent>) -> nat
    decreases evs.len(),
{
    if evs.len() == 0 {
        0
    } else {
        copies_completed(evs.drop_last()) + if evs.last() is CopyDone {
            1nat
        } else {
            0nat
        }
    }
}

/// Spawn flush: in any run of the shepherd that reaches zero pending
/// copies — the state `finish` demands — every one of the `n` copy tasks
/// has completed, so all stdout and stderr bytes emitted before the
/// child's exit have been copied to the caller's sinks.
pub proof fn lemma_spawn_flush(n: nat, evs: Seq<ShepherdEvent>)
    requires
        valid_run(n, evs),
    ensures
        pending_after(n, evs) == n - copies_completed(evs),
        copies_completed(evs) <= n,
        pending_after(n, evs) == 0 ==> copies_completed(evs) == n,
    decreases evs.len(),
{
    if evs.len() == 0 {
    } else {
        lemma_spawn_flush(n, evs.drop_last());
    }
}

} // verus!
