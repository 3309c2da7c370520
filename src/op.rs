use vstd::prelude::*;

use crate::completion::Completion;
use crate::lifecycle::Lifecycle;
use crate::slots::{poll_result, poll_slots, SlotTable};

verus! {

/// The claim on one slot: whoever holds it collects the slot's completion
/// and then frees the slot.
pub struct OpInner {
    index: usize,
}

impl OpInner {
    pub closed spec fn key(&self) -> usize {
        self.index
    }

    pub fn index(&self) -> (r: usize)
        ensures
            r == self.key(),
    {
        self.index
    }

    /// One poll of the claimed slot by the task that `waker` resumes.
    pub fn poll(&self, slots: &mut SlotTable, waker: std::task::Waker) -> (r: Option<Completion>)
        requires
            old(slots)@.contains_key(self.key()),
        ensures
            r == poll_result(old(slots)@, self.key()),
            final(slots)@ == poll_slots(old(slots)@, self.key(), waker),
    {
        slots.poll(self.index, waker)
    }

    /// Gives up the claim once the slot has completed, freeing the slot.
    /// A slot that has not completed may still be written by the kernel, so
    /// releasing it then is a contract violation that `requires` rules out.
    pub fn release(self, slots: &mut SlotTable) -> (r: Completion)
        requires
            old(slots)@.contains_key(self.key()),
            old(slots)@[self.key()].is_completed(),
        ensures
            Some(r) == poll_result(old(slots)@, self.key()),
            final(slots)@ == old(slots)@.remove(self.key()),
    {
        slots.remove_completed(self.index)
    }
}

/// An operation in flight, as its caller holds it.
pub struct Op {
    inner: Option<OpInner>,
}

impl Op {
    /// Whether the handle still holds its claim (it gives it up on cancel).
    pub closed spec fn is_live(&self) -> bool {
        self.inner is Some
    }

    pub closed spec fn key(&self) -> usize {
        self.inner->Some_0.key()
    }

    /// Allocates a slot in `Submitted` and the handle that claims it.
    pub fn submitted(slots: &mut SlotTable) -> (r: Op)
        ensures
            r.is_live(),
            !old(slots)@.contains_key(r.key()),
            final(slots)@ == old(slots)@.insert(r.key(), Lifecycle::Submitted),
    {
        let index = slots.insert_submitted();
        Op { inner: Some(OpInner { index }) }
    }

    pub fn index(&self) -> (r: usize)
        requires
            self.is_live(),
        ensures
            r == self.key(),
    {
        self.inner.as_ref().unwrap().index()
    }

    /// One poll of the operation by the task that `waker` resumes: its
    /// completion once it has arrived, else `None` with `waker` stored.
    pub fn poll(&self, slots: &mut SlotTable, waker: std::task::Waker) -> (r: Option<Completion>)
        requires
            self.is_live(),
            old(slots)@.contains_key(self.key()),
        ensures
            r == poll_result(old(slots)@, self.key()),
            final(slots)@ == poll_slots(old(slots)@, self.key(), waker),
    {
        self.inner.as_ref().unwrap().poll(slots, waker)
    }

    /// Gives up the handle. A completed slot is freed at once. A slot that
    /// has not completed stays in the table untouched, and the claim on it
    /// comes back, to be handed to a detached waiter that collects the
    /// completion and then frees the slot.
    pub fn cancel(&mut self, slots: &mut SlotTable) -> (r: Option<OpInner>)
        requires
            old(self).is_live(),
            old(slots)@.contains_key(old(self).key()),
        ensures
            !final(self).is_live(),
            old(slots)@[old(self).key()].is_completed() ==> r is None && final(slots)@
                == old(slots)@.remove(old(self).key()),
            !old(slots)@[old(self).key()].is_completed() ==> r is Some && r->Some_0.key()
                == old(self).key() && final(slots)@ == old(slots)@,
    {
        let inner = self.inner.take().unwrap();
        if slots.is_completed(inner.index) {
            let _ = inner.release(slots);
            None
        } else {
            Some(inner)
        }
    }
}

} // verus!
