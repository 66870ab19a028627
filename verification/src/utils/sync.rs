//! The counting semaphore that bounds how many subtree walks run at once.
//!
//! The semaphore only counts. Waiting for a free slot, and waking a waiter, is the
//! caller's part: it asks `lock` until it is admitted, and calls `unlock`
//! when a walk has ended, however it ended.

use vstd::prelude::*;

verus! {

/// A semaphore as a mathematical value: `active` walks are admitted, of at most
/// `limit`.
pub struct SlotState {
    pub limit: nat,
    pub active: nat,
}

/// What a caller does at a semaphore.
pub enum SlotEvent {
    /// It asks for admission.
    Lock,
    /// It gives its slot back.
    Unlock,
}

impl SlotState {
    /// A semaphore with no walk admitted.
    pub open spec fn fresh(limit: nat) -> SlotState {
        SlotState { limit, active: 0 }
    }

    /// A request for admission is granted while a slot is free.
    pub open spec fn admits(self) -> bool {
        self.active < self.limit
    }

    /// The state after one event. A request while no slot is free changes nothing,
    /// nor does a slot given back that nobody held.
    pub open spec fn after(self, event: SlotEvent) -> SlotState {
        match event {
            SlotEvent::Lock => if self.admits() {
                SlotState { active: self.active + 1, ..self }
            } else {
                self
            },
            SlotEvent::Unlock => if self.active > 0 {
                SlotState { active: (self.active - 1) as nat, ..self }
            } else {
                self
            },
        }
    }

    /// The state after a run of events.
    pub open spec fn after_all(self, events: Seq<SlotEvent>) -> SlotState
        decreases events.len(),
    {
        if events.len() == 0 {
            self
        } else {
            self.after_all(events.drop_last()).after(events.last())
        }
    }
}

/// Whatever callers do, in whatever order, a semaphore that starts empty never has
/// more walks admitted than its limit, and its limit never changes.
pub proof fn lemma_never_over_limit(limit: nat, events: Seq<SlotEvent>)
    ensures
        SlotState::fresh(limit).after_all(events).limit == limit,
        SlotState::fresh(limit).after_all(events).active <= limit,
    decreases events.len(),
{
    if events.len() > 0 {
        lemma_never_over_limit(limit, events.drop_last());
    }
}

/// Counts the walks that are admitted, up to a limit.
pub struct Semaphore {
    max_threads: usize,
    count: usize,
}

impl View for Semaphore {
    type V = SlotState;

    closed spec fn view(&self) -> SlotState {
        SlotState { limit: self.max_threads as nat, active: self.count as nat }
    }
}

impl Semaphore {
    #[verifier::type_invariant]
    spec fn within_limit(self) -> bool {
        self.count <= self.max_threads
    }

    /// A semaphore that admits at most `max_threads` walks at once.
    pub fn new(max_threads: usize) -> (semaphore: Self)
        ensures
            semaphore@ == SlotState::fresh(max_threads as nat),
    {
        Semaphore { max_threads, count: 0 }
    }

    /// The number of walks that are admitted now. It is never over the limit.
    pub fn active(&self) -> (active: usize)
        ensures
            active == self@.active,
            active <= self@.limit,
    {
        proof {
            use_type_invariant(self);
        }
        self.count
    }

    /// The most walks that are admitted at once.
    pub fn limit(&self) -> (limit: usize)
        ensures
            limit == self@.limit,
    {
        self.max_threads
    }

    /// Asks for admission. The answer is yes while a slot is free, and the
    /// slot is then taken; else nothing changes and the caller has to wait
    /// and ask again.
    pub fn lock(&mut self) -> (admitted: bool)
        ensures
            admitted == old(self)@.admits(),
            final(self)@ == old(self)@.after(SlotEvent::Lock),
    {
        proof {
            use_type_invariant(&*self);
        }
        if self.count < self.max_threads {
            self.count = self.count + 1;
            true
        } else {
            false
        }
    }

    /// Gives back the slot of a walk that has ended. A waiter can then be
    /// admitted.
    pub fn unlock(&mut self)
        requires
            old(self)@.active > 0,
        ensures
            final(self)@ == old(self)@.after(SlotEvent::Unlock),
    {
        proof {
            use_type_invariant(&*self);
        }
        self.count = self.count - 1;
    }
}

} // verus!
