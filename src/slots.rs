use vstd::prelude::*;

use crate::completion::Completion;
use crate::lifecycle::Lifecycle;

verus! {

#[verifier::external_type_specification]
#[verifier::external_body]
#[verifier::reject_recursive_types(T)]
pub struct ExSlab<T>(slab::Slab<T>);

/// What a slab of lifecycles holds: each occupied key and its value.
pub uninterp spec fn slab_slots(s: slab::Slab<Lifecycle>) -> Map<usize, Lifecycle>;

/// Relies on `Slab::new`: a slab with no occupied key.
#[verifier::external_body]
fn slab_new() -> (r: slab::Slab<Lifecycle>)
    ensures
        slab_slots(r).dom() == Set::<usize>::empty(),
{
    slab::Slab::new()
}

/// Relies on `Slab::insert`: the value goes under a key that was vacant,
/// and every other entry stays.
#[verifier::external_body]
fn slab_insert(s: &mut slab::Slab<Lifecycle>, v: Lifecycle) -> (k: usize)
    ensures
        !slab_slots(*old(s)).contains_key(k),
        slab_slots(*final(s)) == slab_slots(*old(s)).insert(k, v),
{
    s.insert(v)
}

/// Relies on `Slab::get`: the value under an occupied key, `None` for a
/// vacant one.
#[verifier::external_body]
fn slab_get(s: &slab::Slab<Lifecycle>, k: usize) -> (r: Option<&Lifecycle>)
    ensures
        match r {
            Some(v) => slab_slots(*s).contains_key(k) && *v == slab_slots(*s)[k],
            None => !slab_slots(*s).contains_key(k),
        },
{
    s.get(k)
}

/// Relies on `Slab`'s `IndexMut`: the value under an occupied key is
/// swapped for `v`; it panics on a vacant key, which `requires` rules out.
#[verifier::external_body]
fn slab_replace(s: &mut slab::Slab<Lifecycle>, k: usize, v: Lifecycle) -> (r: Lifecycle)
    requires
        slab_slots(*old(s)).contains_key(k),
    ensures
        r == slab_slots(*old(s))[k],
        slab_slots(*final(s)) == slab_slots(*old(s)).insert(k, v),
{
    std::mem::replace(&mut s[k], v)
}

/// Relies on `Slab::remove`: the value under an occupied key is taken out
/// and the key becomes vacant; it panics on a vacant key, which `requires`
/// rules out.
#[verifier::external_body]
fn slab_remove(s: &mut slab::Slab<Lifecycle>, k: usize) -> (r: Lifecycle)
    requires
        slab_slots(*old(s)).contains_key(k),
    ensures
        r == slab_slots(*old(s))[k],
        slab_slots(*final(s)) == slab_slots(*old(s)).remove(k),
{
    s.remove(k)
}

/// The slot a completion's correlation tag names, if the tag fits a key.
pub open spec fn tag_slot(c: Completion) -> Option<usize> {
    if c.user_data <= usize::MAX {
        Some(c.user_data as usize)
    } else {
        None
    }
}

/// Whether a completion finds a slot that is still waiting for it.
pub open spec fn is_deliverable(m: Map<usize, Lifecycle>, c: Completion) -> bool {
    match tag_slot(c) {
        Some(k) => m.contains_key(k) && !m[k].is_completed(),
        None => false,
    }
}

/// The slots after one completion arrives: the slot it names completes if
/// it had not; a completion for a completed or unknown slot changes nothing.
pub open spec fn deliver_one(m: Map<usize, Lifecycle>, c: Completion) -> Map<usize, Lifecycle> {
    if is_deliverable(m, c) {
        m.insert(c.user_data as usize, Lifecycle::Completed(c))
    } else {
        m
    }
}

/// The slots after a batch of completions arrives, in the batch's order.
pub open spec fn deliver_batch(m: Map<usize, Lifecycle>, s: Seq<Completion>) -> Map<usize, Lifecycle>
    decreases s.len(),
{
    if s.len() == 0 {
        m
    } else {
        deliver_batch(deliver_one(m, s[0]), s.drop_first())
    }
}

/// The completions of a batch that found no slot waiting for them, in order.
pub open spec fn discarded(m: Map<usize, Lifecycle>, s: Seq<Completion>) -> Seq<Completion>
    decreases s.len(),
{
    if s.len() == 0 {
        Seq::empty()
    } else {
        let rest = discarded(deliver_one(m, s[0]), s.drop_first());
        if is_deliverable(m, s[0]) {
            rest
        } else {
            seq![s[0]].add(rest)
        }
    }
}

/// The waker a completion takes out of its slot: the parked task's, when
/// the completion is taken by a slot in `Waiting`.
pub open spec fn displaced_waker(m: Map<usize, Lifecycle>, c: Completion) -> Option<std::task::Waker> {
    if is_deliverable(m, c) {
        match m[c.user_data as usize] {
            Lifecycle::Waiting(w) => Some(w),
            _ => None,
        }
    } else {
        None
    }
}

/// The wakers a batch of completions takes out of their slots, in the
/// batch's order: one for each completion taken by a slot in `Waiting`.
pub open spec fn woken(m: Map<usize, Lifecycle>, s: Seq<Completion>) -> Seq<std::task::Waker>
    decreases s.len(),
{
    if s.len() == 0 {
        Seq::empty()
    } else {
        let rest = woken(deliver_one(m, s[0]), s.drop_first());
        match displaced_waker(m, s[0]) {
            Some(w) => seq![w].add(rest),
            None => rest,
        }
    }
}

/// What polling slot `k` yields: its completion once it has one.
pub open spec fn poll_result(m: Map<usize, Lifecycle>, k: usize) -> Option<Completion> {
    match m[k] {
        Lifecycle::Completed(c) => Some(c),
        _ => None,
    }
}

/// The slots after polling slot `k` with waker `w`: an unfinished slot
/// now holds `w`; a completed one is left as it is.
pub open spec fn poll_slots(m: Map<usize, Lifecycle>, k: usize, w: std::task::Waker) -> Map<usize, Lifecycle> {
    if m[k].is_completed() {
        m
    } else {
        m.insert(k, Lifecycle::Waiting(w))
    }
}

/// What a drain hands back: the wakers of the tasks whose operations
/// completed, to be woken in this order, and the completions no slot took.
pub struct Drain {
    pub wakers: Vec<std::task::Waker>,
    pub refused: Vec<Completion>,
}

/// The table of slots, keyed by a reusable integer id that is also the
/// correlation tag of the slot's submission.
pub struct SlotTable {
    slab: slab::Slab<Lifecycle>,
}

impl SlotTable {
    pub closed spec fn view(&self) -> Map<usize, Lifecycle> {
        slab_slots(self.slab)
    }

    pub fn new() -> (r: SlotTable)
        ensures
            r.view().dom() == Set::<usize>::empty(),
    {
        SlotTable { slab: slab_new() }
    }

    /// Allocates a fresh slot in `Submitted`.
    pub fn insert_submitted(&mut self) -> (k: usize)
        ensures
            !old(self).view().contains_key(k),
            final(self).view() == old(self).view().insert(k, Lifecycle::Submitted),
    {
        slab_insert(&mut self.slab, Lifecycle::Submitted)
    }

    pub fn contains(&self, k: usize) -> (r: bool)
        ensures
            r == self.view().contains_key(k),
    {
        slab_get(&self.slab, k).is_some()
    }

    /// The completion of slot `k`, if it has one.
    pub fn completion_of(&self, k: usize) -> (r: Option<Completion>)
        requires
            self.view().contains_key(k),
        ensures
            r == poll_result(self.view(), k),
    {
        match slab_get(&self.slab, k) {
            Some(l) => l.completed(),
            None => None,
        }
    }

    pub fn is_completed(&self, k: usize) -> (r: bool)
        requires
            self.view().contains_key(k),
        ensures
            r == self.view()[k].is_completed(),
    {
        self.completion_of(k).is_some()
    }

    /// Drives slot `k` as a poll by the task that `waker` resumes.
    pub fn poll(&mut self, k: usize, waker: std::task::Waker) -> (r: Option<Completion>)
        requires
            old(self).view().contains_key(k),
        ensures
            r == poll_result(old(self).view(), k),
            final(self).view() == poll_slots(old(self).view(), k, waker),
    {
        match self.completion_of(k) {
            Some(c) => Some(c),
            None => {
                let _ = slab_replace(&mut self.slab, k, Lifecycle::Waiting(waker));
                None
            },
        }
    }

    /// Applies one completion to the slot its tag names. When the slot
    /// takes it, the result is `Ok` with the waker of the task parked there,
    /// if any, for the caller to wake. A completion for a completed slot (a
    /// duplicate or a multi-shot result) or for an unknown tag is handed
    /// back in `Err` and changes nothing.
    pub fn deliver(&mut self, c: Completion) -> (r: Result<Option<std::task::Waker>, Completion>)
        ensures
            r is Ok <==> is_deliverable(old(self).view(), c),
            r matches Ok(w) ==> w == displaced_waker(old(self).view(), c),
            r matches Err(e) ==> e == c,
            final(self).view() == deliver_one(old(self).view(), c),
    {
        if c.user_data > usize::MAX as u64 {
            return Err(c);
        }
        let k = c.user_data as usize;
        let pending = match slab_get(&self.slab, k) {
            Some(l) => l.completed().is_none(),
            None => false,
        };
        if !pending {
            return Err(c);
        }
        let prev = slab_replace(&mut self.slab, k, Lifecycle::Completed(c));
        match prev {
            Lifecycle::Waiting(w) => Ok(Some(w)),
            _ => Ok(None),
        }
    }

    /// Applies a batch of completions in order. Returns the wakers taken
    /// out of their slots, in the order their completions came, and the
    /// completions refused.
    pub fn deliver_all(&mut self, batch: &Vec<Completion>) -> (r: Drain)
        ensures
            final(self).view() == deliver_batch(old(self).view(), batch@),
            r.wakers@ == woken(old(self).view(), batch@),
            r.refused@ == discarded(old(self).view(), batch@),
    {
        let mut wakers: Vec<std::task::Waker> = Vec::new();
        let mut refused: Vec<Completion> = Vec::new();
        let mut i: usize = 0;
        assert(batch@.subrange(0, batch@.len() as int) =~= batch@);
        assert(refused@.add(discarded(self.view(), batch@)) =~= discarded(self.view(), batch@));
        assert(wakers@.add(woken(self.view(), batch@)) =~= woken(self.view(), batch@));
        while i < batch.len()
            invariant
                i <= batch@.len(),
                deliver_batch(old(self).view(), batch@) == deliver_batch(self.view(), batch@.subrange(i as int, batch@.len() as int)),
                discarded(old(self).view(), batch@) == refused@.add(discarded(self.view(), batch@.subrange(i as int, batch@.len() as int))),
                woken(old(self).view(), batch@) == wakers@.add(woken(self.view(), batch@.subrange(i as int, batch@.len() as int))),
            decreases batch@.len() - i,
        {
            let ghost rest = batch@.subrange(i as int, batch@.len() as int);
            let ghost before = self.view();
            let ghost refused_before = refused@;
            let ghost wakers_before = wakers@;
            assert(rest.drop_first() =~= batch@.subrange(i + 1, batch@.len() as int));
            let c = batch[i];
            assert(rest[0] == c);
            match self.deliver(c) {
                Ok(Some(w)) => {
                    wakers.push(w);
                },
                Ok(None) => {},
                Err(e) => {
                    refused.push(e);
                },
            }
            let ghost tail = rest.drop_first();
            assert(refused@.add(discarded(self.view(), tail)) =~= refused_before.add(discarded(before, rest)));
            assert(wakers@.add(woken(self.view(), tail)) =~= wakers_before.add(woken(before, rest)));
            i = i + 1;
        }
        assert(batch@.subrange(i as int, batch@.len() as int) =~= Seq::<Completion>::empty());
        assert(refused@.add(Seq::<Completion>::empty()) =~= refused@);
        assert(wakers@.add(Seq::<std::task::Waker>::empty()) =~= wakers@);
        Drain { wakers, refused }
    }

    /// Takes a completed slot out of the table and frees its key.
    pub fn remove_completed(&mut self, k: usize) -> (r: Completion)
        requires
            old(self).view().contains_key(k),
            old(self).view()[k].is_completed(),
        ensures
            Some(r) == poll_result(old(self).view(), k),
            final(self).view() == old(self).view().remove(k),
    {
        let l = slab_remove(&mut self.slab, k);
        match l {
            Lifecycle::Completed(c) => c,
            _ => {
                proof { assert(false); }
                Completion::new(0, 0, 0)
            },
        }
    }
}

} // verus!
