//! The supervisor's restart policy: every task is long-running, so any
//! task completing is a fault; the supervisor notes which task died,
//! waits one second, and rebuilds every task from scratch. No task
//! survives another task's death.

use vstd::prelude::*;

verus! {

/// How long the supervisor waits before rebuilding, in milliseconds.
pub const RESTART_DELAY_MS: u64 = 1000;

/// The supervised tasks.
#[derive(Clone, Copy, Debug, PartialEq, Eq, Structural)]
pub enum Task {
    /// The matrix scanner.
    Matrix,
    /// The key-action machine.
    Keyboard,
    /// The report writer.
    Writer,
    /// The indicator-light service.
    Light,
    /// The configuration service.
    Vial,
    /// The storage task.
    Storage,
    /// The host transport.
    Transport,
    /// The split link.
    SplitLink,
}

/// The supervisor's state: whether the task set is running, when it is
/// due to be rebuilt, and which task last died.
#[derive(Clone, Copy, Debug, PartialEq, Eq, Structural)]
pub struct Supervisor {
    /// Whether every task is running.
    pub all_running: bool,
    /// When the rebuilt task set comes up, if a rebuild is due.
    pub restart_at: Option<u64>,
    /// The task whose death caused the pending rebuild.
    pub last_fault: Option<Task>,
}

/// What a task's death does: stop everything and schedule the rebuild
/// one restart delay later.
pub open spec fn spec_on_exit(s: Supervisor, t: Task, now: u64) -> Supervisor {
    Supervisor {
        all_running: false,
        restart_at: Some(
            if now > u64::MAX - RESTART_DELAY_MS {
                u64::MAX
            } else {
                (now + RESTART_DELAY_MS) as u64
            },
        ),
        last_fault: Some(t),
    }
}

/// What the passage of time does: once the scheduled moment arrives,
/// every task is rebuilt and running again.
pub open spec fn spec_on_time(s: Supervisor, now: u64) -> Supervisor {
    match s.restart_at {
        Some(at) => if now >= at {
            Supervisor { all_running: true, restart_at: None, last_fault: s.last_fault }
        } else {
            s
        },
        None => s,
    }
}

impl Supervisor {
    /// At boot every task is running.
    pub fn new() -> (r: Supervisor)
        ensures
            r.all_running,
            r.restart_at is None,
            r.last_fault is None,
    {
        Supervisor { all_running: true, restart_at: None, last_fault: None }
    }

    /// A task completed — always a fault. Note it and schedule the
    /// rebuild; see [`spec_on_exit`].
    pub fn on_task_exit(&mut self, t: Task, now: u64)
        ensures
            *final(self) == spec_on_exit(*old(self), t, now),
            !final(self).all_running,
            final(self).last_fault == Some(t),
    {
        self.all_running = false;
        self.restart_at = Some(
            if now > u64::MAX - RESTART_DELAY_MS {
                u64::MAX
            } else {
                now + RESTART_DELAY_MS
            },
        );
        self.last_fault = Some(t);
    }

    /// Let time pass; the returned flag says the task set must be
    /// rebuilt now. See [`spec_on_time`].
    pub fn on_time(&mut self, now: u64) -> (rebuild: bool)
        ensures
            *final(self) == spec_on_time(*old(self), now),
            rebuild == (old(self).restart_at is Some && now >= old(self).restart_at->Some_0),
            rebuild ==> final(self).all_running,
    {
        match self.restart_at {
            Some(at) => {
                if now >= at {
                    self.all_running = true;
                    self.restart_at = None;
                    true
                } else {
                    false
                }
            },
            None => false,
        }
    }
}

/// Liveness of the restart policy: after any single task's death at time
/// `t`, every task is running again once the restart delay has passed —
/// the supervisor that observes time `t + RESTART_DELAY_MS` (or later)
/// reports the whole task set up.
pub proof fn lemma_supervisor_liveness(s: Supervisor, t: Task, died_at: u64, now: u64)
    requires
        died_at <= u64::MAX - RESTART_DELAY_MS,
        now >= died_at + RESTART_DELAY_MS,
    ensures
        spec_on_time(spec_on_exit(s, t, died_at), now).all_running,
        spec_on_exit(s, t, died_at).last_fault == Some(t),
{
}

} // verus!
