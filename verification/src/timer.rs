//! Bookkeeping of timed script callbacks: which are scheduled, how many
//! runs each has left, and what firing one means.
use vstd::prelude::*;
use std::collections::HashMap;

verus! {

broadcast use vstd::std_specs::hash::group_hash_axioms;

/// What firing a timer tells the client.
#[derive(Debug, Clone, Copy, PartialEq, Eq, Structural)]
pub enum TimerNotice {
    /// Run the callback.
    TimedEvent(u32),
    /// The callback has run its last; forget it.
    DropTimedEvent(u32),
}

/// A scheduled callback: the handle that keeps its timer running (dropping
/// it stops the timer) and the runs it has left (`None`: without end).
pub struct Job<G> {
    pub guard: G,
    pub count: Option<u32>,
}

/// The scheduled callbacks by id. Core callbacks are kept apart from those
/// of scripts.
pub struct Schedule<G> {
    jobs: HashMap<u32, Job<G>>,
    core_jobs: HashMap<u32, Job<G>>,
}

impl<G> Schedule<G> {
    /// The script callbacks.
    pub closed spec fn spec_jobs(&self) -> Map<u32, Job<G>> {
        self.jobs@
    }

    /// The core callbacks.
    pub closed spec fn spec_core_jobs(&self) -> Map<u32, Job<G>> {
        self.core_jobs@
    }

    /// Nothing scheduled.
    pub fn new() -> (r: Schedule<G>)
        ensures
            r.spec_jobs() == Map::<u32, Job<G>>::empty(),
            r.spec_core_jobs() == Map::<u32, Job<G>>::empty(),
    {
        Schedule { jobs: HashMap::new(), core_jobs: HashMap::new() }
    }

    /// Schedules callback `callback_id` for `count` more runs (`None`:
    /// without end), as a core or a script callback; a callback of the same
    /// id there is replaced, and its timer stops.
    pub fn add_job(&mut self, guard: G, count: Option<u32>, callback_id: u32, core: bool)
        ensures
            core ==> final(self).spec_core_jobs() == old(self).spec_core_jobs().insert(
                callback_id,
                Job { guard, count },
            ) && final(self).spec_jobs() == old(self).spec_jobs(),
            !core ==> final(self).spec_jobs() == old(self).spec_jobs().insert(
                callback_id,
                Job { guard, count },
            ) && final(self).spec_core_jobs() == old(self).spec_core_jobs(),
    {
        if core {
            self.core_jobs.insert(callback_id, Job { guard, count });
        } else {
            self.jobs.insert(callback_id, Job { guard, count });
        }
    }

    /// Drops the script callbacks, and the core ones too if asked.
    pub fn clear_jobs(&mut self, include_core: bool)
        ensures
            final(self).spec_jobs() == Map::<u32, Job<G>>::empty(),
            final(self).spec_core_jobs() == if include_core {
                Map::<u32, Job<G>>::empty()
            } else {
                old(self).spec_core_jobs()
            },
    {
        self.jobs.clear();
        if include_core {
            self.core_jobs.clear();
        }
    }

    /// Drops a script callback.
    pub fn remove_job(&mut self, callback_id: u32)
        ensures
            final(self).spec_jobs() == old(self).spec_jobs().remove(callback_id),
            final(self).spec_core_jobs() == old(self).spec_core_jobs(),
    {
        self.jobs.remove(&callback_id);
    }

    /// How many script callbacks are scheduled.
    pub fn job_count(&self) -> (r: usize)
        ensures
            r == self.spec_jobs().len(),
    {
        self.jobs.len()
    }

    /// Whether no script callback is scheduled.
    pub fn is_empty(&self) -> (r: bool)
        ensures
            r == (self.spec_jobs().len() == 0),
    {
        self.jobs.len() == 0
    }

    /// A timer fired for `callback_id`. A core callback of that id is
    /// preferred to a script one. A callback with runs left runs and has
    /// one run fewer; one with none left is dropped from the script
    /// callbacks and reported as done; one without end just runs. Nothing
    /// happens for an unknown id.
    pub fn run_job(&mut self, callback_id: u32) -> (r: Option<TimerNotice>)
        ensures
            ran_job(*old(self), *final(self), callback_id, r),
    {
        let core = self.core_jobs.contains_key(&callback_id);
        let found: Option<Option<u32>> = if core {
            match self.core_jobs.get(&callback_id) {
                Some(j) => Some(j.count),
                None => None,
            }
        } else {
            match self.jobs.get(&callback_id) {
                Some(j) => Some(j.count),
                None => None,
            }
        };
        if found.is_none() {
            return None;
        }
        let count = found.unwrap();
        if count.is_none() {
            return Some(TimerNotice::TimedEvent(callback_id));
        }
        let c = count.unwrap();
        if c == 0 {
            self.jobs.remove(&callback_id);
            Some(TimerNotice::DropTimedEvent(callback_id))
        } else {
            if core {
                let ghost m0 = self.core_jobs@;
                let job = self.core_jobs.remove(&callback_id).unwrap();
                self.core_jobs.insert(callback_id, Job { guard: job.guard, count: Some(c - 1) });
                assert(self.core_jobs@ =~= with_count(m0, callback_id, (c - 1) as u32));
            } else {
                let ghost m0 = self.jobs@;
                let job = self.jobs.remove(&callback_id).unwrap();
                self.jobs.insert(callback_id, Job { guard: job.guard, count: Some(c - 1) });
                assert(self.jobs@ =~= with_count(m0, callback_id, (c - 1) as u32));
            }
            Some(TimerNotice::TimedEvent(callback_id))
        }
    }
}

/// `m` with the job of `id` given `count` runs, its timer kept.
pub open spec fn with_count<G>(m: Map<u32, Job<G>>, id: u32, count: u32) -> Map<u32, Job<G>> {
    m.insert(id, Job { guard: m[id].guard, count: Some(count) })
}

/// What firing the timer of `id` does (see `Schedule::run_job`).
pub open spec fn ran_job<G>(
    before: Schedule<G>,
    after: Schedule<G>,
    id: u32,
    r: Option<TimerNotice>,
) -> bool {
    let core = before.spec_core_jobs().contains_key(id);
    let m = if core {
        before.spec_core_jobs()
    } else {
        before.spec_jobs()
    };
    if !m.contains_key(id) {
        r is None && after.spec_jobs() == before.spec_jobs() && after.spec_core_jobs()
            == before.spec_core_jobs()
    } else {
        match m[id].count {
            Some(c) => if c == 0 {
                &&& r == Some(TimerNotice::DropTimedEvent(id))
                &&& after.spec_jobs() == before.spec_jobs().remove(id)
                &&& after.spec_core_jobs() == before.spec_core_jobs()
            } else {
                &&& r == Some(TimerNotice::TimedEvent(id))
                &&& if core {
                    after.spec_core_jobs() == with_count(before.spec_core_jobs(), id, (c - 1) as u32)
                        && after.spec_jobs() == before.spec_jobs()
                } else {
                    after.spec_jobs() == with_count(before.spec_jobs(), id, (c - 1) as u32)
                        && after.spec_core_jobs() == before.spec_core_jobs()
                }
            },
            None => r == Some(TimerNotice::TimedEvent(id)) && after.spec_jobs() == before.spec_jobs()
                && after.spec_core_jobs() == before.spec_core_jobs(),
        }
    }
}

/// A script callback scheduled for `n` runs fires `n` times and is then
/// reported done and dropped on the next firing, unless a core callback
/// of the same id takes its place.
pub proof fn lemma_counted_job_runs_down<G>(before: Schedule<G>, after: Schedule<G>, id: u32, r: Option<TimerNotice>)
    requires
        !before.spec_core_jobs().contains_key(id),
        before.spec_jobs().contains_key(id),
        before.spec_jobs()[id].count matches Some(c) && c > 0,
        ran_job(before, after, id, r),
    ensures
        r == Some(TimerNotice::TimedEvent(id)),
        after.spec_jobs().contains_key(id),
        after.spec_jobs()[id].count == Some((before.spec_jobs()[id].count.unwrap() - 1) as u32),
        after.spec_jobs()[id].guard == before.spec_jobs()[id].guard,
{
}

/// What the timer thread was sent. Creating a job carries the handle of the
/// timer already started for it.
pub enum TimerRequest<G> {
    Create { guard: G, count: Option<u32>, callback_id: u32, core: bool },
    Trigger(u32),
    Tick,
    Remove(u32),
    Clear(bool),
    Quit,
}

/// What the timer thread does after a request.
#[derive(Debug, Clone, Copy, PartialEq, Eq, Structural)]
pub enum TimerStep {
    /// Go on, telling the client this, if anything.
    Continue(Option<TimerNotice>),
    /// Tell the client how long the client has run, and go on.
    Tick,
    /// Stop.
    Quit,
}

/// Handles one request of the timer thread.
pub fn handle_timer_request<G>(schedule: &mut Schedule<G>, req: TimerRequest<G>) -> (r: TimerStep)
    ensures
        match req {
            TimerRequest::Create { guard, count, callback_id, core } => {
                &&& r == TimerStep::Continue(None)
                &&& core ==> final(schedule).spec_core_jobs() == old(schedule).spec_core_jobs().insert(
                    callback_id,
                    Job { guard, count },
                ) && final(schedule).spec_jobs() == old(schedule).spec_jobs()
                &&& !core ==> final(schedule).spec_jobs() == old(schedule).spec_jobs().insert(
                    callback_id,
                    Job { guard, count },
                ) && final(schedule).spec_core_jobs() == old(schedule).spec_core_jobs()
            },
            TimerRequest::Trigger(id) => exists|n: Option<TimerNotice>|
                r == TimerStep::Continue(n) && #[trigger] ran_job(*old(schedule), *final(schedule), id, n),
            TimerRequest::Tick => r == TimerStep::Tick && *final(schedule) == *old(schedule),
            TimerRequest::Remove(id) => r == TimerStep::Continue(None) && final(schedule).spec_jobs()
                == old(schedule).spec_jobs().remove(id) && final(schedule).spec_core_jobs() == old(
                schedule).spec_core_jobs(),
            TimerRequest::Clear(include_core) => {
                &&& r == TimerStep::Continue(None)
                &&& final(schedule).spec_jobs() == Map::<u32, Job<G>>::empty()
                &&& final(schedule).spec_core_jobs() == if include_core {
                    Map::<u32, Job<G>>::empty()
                } else {
                    old(schedule).spec_core_jobs()
                }
            },
            TimerRequest::Quit => r == TimerStep::Quit && *final(schedule) == *old(schedule),
        },
{
    match req {
        TimerRequest::Create { guard, count, callback_id, core } => {
            schedule.add_job(guard, count, callback_id, core);
            TimerStep::Continue(None)
        },
        TimerRequest::Trigger(id) => {
            let n = schedule.run_job(id);
            TimerStep::Continue(n)
        },
        TimerRequest::Tick => TimerStep::Tick,
        TimerRequest::Remove(id) => {
            schedule.remove_job(id);
            TimerStep::Continue(None)
        },
        TimerRequest::Clear(include_core) => {
            schedule.clear_jobs(include_core);
            TimerStep::Continue(None)
        },
        TimerRequest::Quit => TimerStep::Quit,
    }
}

} // verus!
