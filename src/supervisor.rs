//! Supervision of the top-level tasks (one receive loop per adapter): the
//! first task to end, normally or with an error, ends the run, since a bridge
//! missing one side is of no use. Its outcome is the outcome of the run.

use vstd::prelude::*;

verus! {

pub struct Supervisor {
    running: Vec<bool>,
    trigger: Option<(usize, Option<String>)>,
}

pub struct SupervisorView {
    pub running: Seq<bool>,
    /// The task that ended first, with its error if it failed.
    pub trigger: Option<(nat, Option<Seq<char>>)>,
}

pub open spec fn exit_view(index: usize, error: Option<String>) -> (nat, Option<Seq<char>>) {
    (
        index as nat,
        match error {
            Some(e) => Some(e@),
            None => None,
        },
    )
}

impl View for Supervisor {
    type V = SupervisorView;

    closed spec fn view(&self) -> SupervisorView {
        SupervisorView {
            running: self.running@,
            trigger: match self.trigger {
                Some((i, e)) => Some(exit_view(i, e)),
                None => None,
            },
        }
    }
}

impl Supervisor {
    /// Supervises `tasks` running tasks.
    pub fn new(tasks: usize) -> (r: Supervisor)
        ensures
            r@.running == Seq::new(tasks as nat, |i: int| true),
            r@.trigger is None,
    {
        let mut running: Vec<bool> = Vec::new();
        let mut i: usize = 0;
        while i < tasks
            invariant
                i <= tasks,
                running@ == Seq::new(i as nat, |k: int| true),
            decreases tasks - i,
        {
            running.push(true);
            i = i + 1;
            assert(running@ =~= Seq::new(i as nat, |k: int| true));
        }
        Supervisor { running, trigger: None }
    }

    /// Records that task `index` ended, with `error` if it failed. Returns
    /// whether the other tasks must now be shut down: only for the first task
    /// to end, whose outcome is kept.
    pub fn on_exit(&mut self, index: usize, error: Option<String>) -> (r: bool)
        requires
            index < old(self)@.running.len(),
        ensures
            r == old(self)@.trigger is None,
            final(self)@.running == old(self)@.running.update(index as int, false),
            final(self)@.trigger == if r {
                Some(exit_view(index, error))
            } else {
                old(self)@.trigger
            },
    {
        self.running.set(index, false);
        if self.trigger.is_none() {
            self.trigger = Some((index, error));
            true
        } else {
            false
        }
    }

    /// Whether task `index` is still running.
    pub fn is_running(&self, index: usize) -> (r: bool)
        requires
            index < self@.running.len(),
        ensures
            r == self@.running[index as int],
    {
        self.running[index]
    }

    /// The outcome of the run: the task that ended first and its error, once
    /// one has ended.
    pub fn outcome(&self) -> (r: Option<(usize, Option<String>)>)
        ensures
            r is None <==> self@.trigger is None,
            r matches Some((i, e)) ==> self@.trigger == Some(exit_view(i, e)),
    {
        match &self.trigger {
            None => None,
            Some((i, e)) => Some((*i, e.clone())),
        }
    }
}

} // verus!
