//! How the top-level entries are handed to workers.
//!
//! Each entry is started once, in order, and no more walks run at once than
//! the limit allows. The pool itself only decides: its caller starts a worker
//! when told to, waits for a worker to end when told to, and reports each
//! worker that has ended, however it ended.

use vstd::prelude::*;
use crate::utils::sync::Semaphore;

verus! {

/// A pool as a mathematical value: of `total` entries, `started` have been
/// handed out and `finished` of these have ended; `limit` bounds the walks
/// that run at once, where there is one.
pub struct PoolState {
    pub total: nat,
    pub started: nat,
    pub finished: nat,
    pub limit: Option<nat>,
}

/// What the caller of a pool is to do next.
#[derive(Clone, Copy, Debug, PartialEq, Eq, Structural)]
pub enum PoolStep {
    /// Start a worker on the entry at this index.
    Start(usize),
    /// Wait until a worker has ended, and report it.
    Wait,
    /// Every entry has been started and has ended.
    Done,
}

/// What happens to a pool.
pub enum PoolEvent {
    /// The step that the pool asked for was taken.
    Stepped,
    /// A worker ended.
    Ended,
}

impl PoolState {
    /// The pool before any entry is started.
    pub open spec fn fresh(total: nat, limit: Option<nat>) -> PoolState {
        PoolState { total, started: 0, finished: 0, limit }
    }

    /// The walks that run now.
    pub open spec fn active(self) -> nat {
        (self.started - self.finished) as nat
    }

    /// The counts are in order: no more entries ended than were started, no
    /// more started than there are, and no more walks running than the limit
    /// allows.
    pub open spec fn well_formed(self) -> bool {
        &&& self.finished <= self.started <= self.total
        &&& (self.limit matches Some(limit) ==> self.active() <= limit)
    }

    /// An entry is left to start, and a slot is free for it.
    pub open spec fn can_start(self) -> bool {
        &&& self.started < self.total
        &&& (self.limit matches Some(limit) ==> self.active() < limit)
    }

    /// The step that the pool asks for.
    pub open spec fn step(self) -> PoolStep {
        if self.can_start() {
            PoolStep::Start(self.started as usize)
        } else if self.finished < self.total {
            PoolStep::Wait
        } else {
            PoolStep::Done
        }
    }

    /// The pool after the step it asked for was taken: an entry more is
    /// started, or nothing has changed.
    pub open spec fn stepped(self) -> PoolState {
        if self.can_start() {
            PoolState { started: self.started + 1, ..self }
        } else {
            self
        }
    }

    /// The pool after a worker has ended.
    pub open spec fn ended(self) -> PoolState {
        if self.active() > 0 {
            PoolState { finished: self.finished + 1, ..self }
        } else {
            self
        }
    }

    /// The pool after a run of events.
    pub open spec fn after_all(self, events: Seq<PoolEvent>) -> PoolState
        decreases events.len(),
    {
        if events.len() == 0 {
            self
        } else {
            let before = self.after_all(events.drop_last());
            match events.last() {
                PoolEvent::Stepped => before.stepped(),
                PoolEvent::Ended => before.ended(),
            }
        }
    }
}

/// Whatever the order in which steps are taken and workers end, the counts of
/// a pool stay in order: at no time do more walks run than the limit allows.
pub proof fn lemma_pool_stays_well_formed(total: nat, limit: Option<nat>, events: Seq<PoolEvent>)
    ensures
        PoolState::fresh(total, limit).after_all(events).well_formed(),
        PoolState::fresh(total, limit).after_all(events).total == total,
        PoolState::fresh(total, limit).after_all(events).limit == limit,
    decreases events.len(),
{
    if events.len() > 0 {
        lemma_pool_stays_well_formed(total, limit, events.drop_last());
    }
}

/// A pool is done exactly when every entry was started and has ended: none
/// is lost, and none is counted twice.
pub proof fn lemma_done_means_all_ended(pool: PoolState)
    requires
        pool.well_formed(),
    ensures
        pool.step() == PoolStep::Done <==> pool.started == pool.total && pool.finished
            == pool.total,
        pool.step() == PoolStep::Wait && pool.active() == 0 ==> pool.limit == Some(0nat),
{
}

/// Hands the top-level entries of a scan to workers, one by one.
pub struct ReaderPool {
    total: usize,
    started: usize,
    finished: usize,
    slots: Option<Semaphore>,
}

impl View for ReaderPool {
    type V = PoolState;

    closed spec fn view(&self) -> PoolState {
        PoolState {
            total: self.total as nat,
            started: self.started as nat,
            finished: self.finished as nat,
            limit: match self.slots {
                Some(slots) => Some(slots@.limit),
                None => None,
            },
        }
    }
}

impl ReaderPool {
    /// The counts are in order, and the semaphore has counted the walks that
    /// run. Every pool that `new` made and that only its own methods changed
    /// is so.
    pub closed spec fn in_order(&self) -> bool {
        &&& self.finished <= self.started <= self.total
        &&& (self.slots matches Some(slots) ==> slots@.active == self.started - self.finished)
    }

    /// A pool for `total` entries, of which at most `max_threads` are walked
    /// at once; without a limit, all of them may be.
    pub fn new(total: usize, max_threads: Option<usize>) -> (pool: Self)
        ensures
            pool.in_order(),
            pool@ == PoolState::fresh(
                total as nat,
                match max_threads {
                    Some(limit) => Some(limit as nat),
                    None => None,
                },
            ),
    {
        let slots = match max_threads {
            Some(limit) => Some(Semaphore::new(limit)),
            None => None,
        };
        ReaderPool { total, started: 0, finished: 0, slots }
    }

    /// The number of walks that run now. It is never over the limit.
    pub fn active(&self) -> (active: usize)
        requires
            self.in_order(),
        ensures
            active == self@.active(),
            self@.well_formed(),
    {
        match &self.slots {
            Some(slots) => slots.active(),
            None => self.started - self.finished,
        }
    }

    /// Tells what to do next, and counts an entry as started where the answer
    /// is to start it.
    pub fn next_step(&mut self) -> (step: PoolStep)
        requires
            old(self).in_order(),
        ensures
            final(self).in_order(),
            step == old(self)@.step(),
            final(self)@ == old(self)@.stepped(),
    {
        if self.started < self.total {
            let admitted = match &mut self.slots {
                Some(slots) => slots.lock(),
                None => true,
            };
            if admitted {
                let index = self.started;
                self.started = self.started + 1;
                return PoolStep::Start(index);
            }
        }
        if self.finished < self.total {
            PoolStep::Wait
        } else {
            PoolStep::Done
        }
    }

    /// Counts a worker as ended and frees its slot. This is due for every
    /// worker that was started, also for one that ended abnormally.
    pub fn worker_ended(&mut self)
        requires
            old(self).in_order(),
            old(self)@.active() > 0,
        ensures
            final(self).in_order(),
            final(self)@ == old(self)@.ended(),
    {
        if let Some(slots) = &mut self.slots {
            slots.unlock();
        }
        self.finished = self.finished + 1;
    }
}

} // verus!
