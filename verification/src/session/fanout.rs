//! The bookkeeping of a server task that takes items from a source as they
//! come (the tracks of a broadcast, the groups of a track), serves each in
//! a task of its own, and ends when the source has ended and every task has
//! finished, or as soon as one task fails.
use vstd::prelude::*;

verus! {

/// What the server task does next.
#[derive(Clone, Copy, Debug, PartialEq, Eq, Structural)]
pub enum Plan {
    /// Wait for the next item of the source: no task is running.
    AwaitSource,
    /// Wait for a task to finish: the source has ended.
    AwaitTask,
    /// Wait for whichever comes first: the next item or the end of a task.
    AwaitEither,
    /// Return: success if `true`, the failure of a task if `false`.
    Return(bool),
}

/// The state of the server task.
#[derive(Clone, Copy, Debug, PartialEq, Eq, Structural)]
pub struct Fanout {
    /// The source has ended.
    pub source_done: bool,
    /// Number of tasks that are running.
    pub running: usize,
    /// A task has failed.
    pub failed: bool,
}

impl Fanout {
    /// What to do in this state: return the failure once a task has
    /// failed; else wait for what can still come; return success when
    /// nothing can.
    pub open spec fn spec_plan(&self) -> Plan {
        if self.failed {
            Plan::Return(false)
        } else if !self.source_done && self.running > 0 {
            Plan::AwaitEither
        } else if !self.source_done {
            Plan::AwaitSource
        } else if self.running > 0 {
            Plan::AwaitTask
        } else {
            Plan::Return(true)
        }
    }

    /// The state before anything came.
    pub fn new() -> (f: Fanout)
        ensures
            f == (Fanout { source_done: false, running: 0, failed: false }),
    {
        Fanout { source_done: false, running: 0, failed: false }
    }

    /// What to do in this state.
    #[verifier::when_used_as_spec(spec_plan)]
    pub fn plan(&self) -> (p: Plan)
        ensures
            p == self.spec_plan(),
    {
        if self.failed {
            Plan::Return(false)
        } else if !self.source_done && self.running > 0 {
            Plan::AwaitEither
        } else if !self.source_done {
            Plan::AwaitSource
        } else if self.running > 0 {
            Plan::AwaitTask
        } else {
            Plan::Return(true)
        }
    }

    /// The source gave an item: a task is started for it.
    pub fn on_item(&mut self)
        requires
            old(self).running < usize::MAX,
        ensures
            *final(self) == (Fanout { running: (old(self).running + 1) as usize, ..*old(self) }),
    {
        self.running = self.running + 1;
    }

    /// The source has ended.
    pub fn on_source_done(&mut self)
        ensures
            *final(self) == (Fanout { source_done: true, ..*old(self) }),
    {
        self.source_done = true;
    }

    /// A task has finished, with success if `ok`. A report without a
    /// running task changes the count no further.
    pub fn on_task(&mut self, ok: bool)
        ensures
            *final(self) == (Fanout {
                running: if old(self).running > 0 {
                    (old(self).running - 1) as usize
                } else {
                    0
                },
                failed: old(self).failed || !ok,
                ..*old(self)
            }),
    {
        if self.running > 0 {
            self.running = self.running - 1;
        }
        if !ok {
            self.failed = true;
        }
    }
}

/// The server task returns success only when the source has ended and no
/// task is running, and it never waits for a task when none is running nor
/// for the source after its end.
pub proof fn lemma_plan_is_sound(f: Fanout)
    ensures
        f.spec_plan() == Plan::Return(true) ==> f.source_done && f.running == 0 && !f.failed,
        f.spec_plan() == Plan::AwaitTask || f.spec_plan() == Plan::AwaitEither ==> f.running > 0,
        f.spec_plan() == Plan::AwaitSource || f.spec_plan() == Plan::AwaitEither
            ==> !f.source_done,
        f.failed ==> f.spec_plan() == Plan::Return(false),
{
}

} // verus!
