use vstd::prelude::*;

use crate::completion::Completion;
use crate::lifecycle::Lifecycle;
use crate::slots::{
    deliver_batch, deliver_one, discarded, displaced_waker, is_deliverable, poll_result, poll_slots,
    tag_slot, woken,
};

verus! {

/// A completed slot is final: no batch of later completions changes it or
/// frees it, and a completion that names it is refused as a duplicate.
pub proof fn lemma_completed_is_final(m: Map<usize, Lifecycle>, s: Seq<Completion>, k: usize)
    requires
        m.contains_key(k),
        m[k].is_completed(),
    ensures
        deliver_batch(m, s).contains_key(k),
        deliver_batch(m, s)[k] == m[k],
        forall|i: int| 0 <= i < s.len() && tag_slot(s[i]) == Some(k) ==> discarded(m, s).contains(s[i]),
    decreases s.len(),
{
    if s.len() > 0 {
        let m1 = deliver_one(m, s[0]);
        lemma_completed_is_final(m1, s.drop_first(), k);
        assert forall|i: int| 0 <= i < s.len() && tag_slot(s[i]) == Some(k) implies discarded(m, s).contains(s[i]) by {
            if i == 0 {
                assert(discarded(m, s)[0] == s[0]);
            } else {
                assert(s.drop_first()[i - 1] == s[i]);
                let rest = discarded(m1, s.drop_first());
                let j = choose|j: int| 0 <= j < rest.len() && rest[j] == s[i];
                if tag_slot(s[0]) == Some(k) {
                    assert(discarded(m, s)[j + 1] == s[i]);
                } else if crate::slots::is_deliverable(m, s[0]) {
                    assert(discarded(m, s)[j] == s[i]);
                } else {
                    assert(discarded(m, s)[j + 1] == s[i]);
                }
            }
        }
    }
}

/// Every batch keeps the set of occupied slots: delivery never frees one.
pub proof fn lemma_batch_keeps_slots(m: Map<usize, Lifecycle>, s: Seq<Completion>)
    ensures
        deliver_batch(m, s).dom() == m.dom(),
    decreases s.len(),
{
    if s.len() > 0 {
        let m1 = deliver_one(m, s[0]);
        assert(m1.dom() =~= m.dom());
        lemma_batch_keeps_slots(m1, s.drop_first());
    }
}

/// A slot that has not completed stays exactly as it is, and stays in the
/// table, through any batch that holds no completion with its tag; this is
/// what keeps a cancelled operation's slot alive until its completion.
pub proof fn lemma_pending_stays(m: Map<usize, Lifecycle>, s: Seq<Completion>, k: usize)
    requires
        m.contains_key(k),
        forall|i: int| 0 <= i < s.len() ==> tag_slot(s[i]) != Some(k),
    ensures
        deliver_batch(m, s).contains_key(k),
        deliver_batch(m, s)[k] == m[k],
    decreases s.len(),
{
    if s.len() > 0 {
        let m1 = deliver_one(m, s[0]);
        assert(m1.contains_key(k) && m1[k] == m[k]);
        assert forall|i: int| 0 <= i < s.drop_first().len() implies tag_slot(s.drop_first()[i]) != Some(k) by {
            assert(s.drop_first()[i] == s[i + 1]);
        }
        lemma_pending_stays(m1, s.drop_first(), k);
    }
}

/// A slot that has not completed completes exactly when a batch brings a
/// completion with its tag, and it holds the first such completion.
pub proof fn lemma_pending_resolves(m: Map<usize, Lifecycle>, s: Seq<Completion>, k: usize, i: int)
    requires
        m.contains_key(k),
        !m[k].is_completed(),
        0 <= i < s.len(),
        tag_slot(s[i]) == Some(k),
        forall|j: int| 0 <= j < i ==> tag_slot(s[j]) != Some(k),
    ensures
        deliver_batch(m, s).contains_key(k),
        deliver_batch(m, s)[k] == Lifecycle::Completed(s[i]),
    decreases s.len(),
{
    let m1 = deliver_one(m, s[0]);
    if i == 0 {
        assert(m1[k] == Lifecycle::Completed(s[0]));
        lemma_completed_is_final(m1, s.drop_first(), k);
    } else {
        assert(m1.contains_key(k) && m1[k] == m[k]);
        assert(s.drop_first()[i - 1] == s[i]);
        assert forall|j: int| 0 <= j < i - 1 implies tag_slot(s.drop_first()[j]) != Some(k) by {
            assert(s.drop_first()[j] == s[j + 1]);
        }
        lemma_pending_resolves(m1, s.drop_first(), k, i - 1);
    }
}

/// A fresh slot, polled or not, resolves to the completion that carries its
/// id as correlation tag.
pub proof fn lemma_round_trip(m: Map<usize, Lifecycle>, k: usize, c: Completion, w: std::task::Waker)
    requires
        !m.contains_key(k),
        c.user_data == k,
    ensures
        poll_result(deliver_one(m.insert(k, Lifecycle::Submitted), c), k) == Some(c),
        poll_result(deliver_one(poll_slots(m.insert(k, Lifecycle::Submitted), k, w), c), k)
            == Some(c),
        poll_result(deliver_one(m.insert(k, Lifecycle::Submitted), c), k)->Some_0.user_data == k,
{
}

/// Polling a completed slot, any number of times and with any waker, yields
/// its completion and leaves the table as it was.
pub proof fn lemma_poll_idempotent(
    m: Map<usize, Lifecycle>,
    k: usize,
    w1: std::task::Waker,
    w2: std::task::Waker,
)
    requires
        m.contains_key(k),
        m[k].is_completed(),
    ensures
        poll_slots(m, k, w1) == m,
        poll_result(m, k) is Some,
        poll_result(poll_slots(m, k, w1), k) == poll_result(m, k),
        poll_slots(poll_slots(m, k, w1), k, w2) == m,
{
}

/// A completion for a completed slot wakes nobody and changes nothing.
pub proof fn lemma_duplicate_wakes_nobody(m: Map<usize, Lifecycle>, c: Completion)
    requires
        tag_slot(c) matches Some(k) && m.contains_key(k) && m[k].is_completed(),
    ensures
        !is_deliverable(m, c),
        displaced_waker(m, c) is None,
        deliver_one(m, c) == m,
{
}

/// A batch splits at any point: delivering it is delivering its first `n`
/// completions and then the rest, for the table, the wakers and the refusals.
pub proof fn lemma_batch_split(m: Map<usize, Lifecycle>, s: Seq<Completion>, n: int)
    requires
        0 <= n <= s.len(),
    ensures
        deliver_batch(m, s) == deliver_batch(deliver_batch(m, s.take(n)), s.skip(n)),
        woken(m, s) == woken(m, s.take(n)).add(woken(deliver_batch(m, s.take(n)), s.skip(n))),
        discarded(m, s) == discarded(m, s.take(n)).add(discarded(deliver_batch(m, s.take(n)), s.skip(n))),
    decreases n,
{
    if n == 0 {
        assert(s.take(0) =~= Seq::<Completion>::empty());
        assert(s.skip(0) =~= s);
        assert(woken(m, s.take(0)).add(woken(m, s)) =~= woken(m, s));
        assert(discarded(m, s.take(0)).add(discarded(m, s)) =~= discarded(m, s));
    } else {
        let m1 = deliver_one(m, s[0]);
        let t = s.drop_first();
        lemma_batch_split(m1, t, n - 1);
        assert(s.take(n).drop_first() =~= t.take(n - 1));
        assert(s.take(n)[0] == s[0]);
        assert(s.skip(n) =~= t.skip(n - 1));
        let tail_m = deliver_batch(m1, t.take(n - 1));
        assert(woken(m, s) =~= woken(m, s.take(n)).add(woken(tail_m, s.skip(n))));
        assert(discarded(m, s) =~= discarded(m, s.take(n)).add(discarded(tail_m, s.skip(n))));
    }
}

/// The task parked on a slot is woken exactly at the first completion with
/// the slot's tag: the wakers of a batch are those of the completions before
/// it, then this waker, then those of the completions after it, for which the
/// slot is already completed.
pub proof fn lemma_waiter_woken_once(
    m: Map<usize, Lifecycle>,
    s: Seq<Completion>,
    k: usize,
    w: std::task::Waker,
    i: int,
)
    requires
        m.contains_key(k),
        m[k] == Lifecycle::Waiting(w),
        0 <= i < s.len(),
        tag_slot(s[i]) == Some(k),
        forall|j: int| 0 <= j < i ==> tag_slot(s[j]) != Some(k),
    ensures
        woken(m, s) == woken(m, s.take(i)).push(w).add(
            woken(deliver_one(deliver_batch(m, s.take(i)), s[i]), s.skip(i + 1)),
        ),
        deliver_one(deliver_batch(m, s.take(i)), s[i])[k] == Lifecycle::Completed(s[i]),
{
    lemma_batch_split(m, s, i);
    let p = s.take(i);
    assert forall|j: int| 0 <= j < p.len() implies tag_slot(p[j]) != Some(k) by {
        assert(p[j] == s[j]);
    }
    lemma_pending_stays(m, p, k);
    let mi = deliver_batch(m, p);
    let r = s.skip(i);
    assert(r[0] == s[i]);
    assert(r.drop_first() =~= s.skip(i + 1));
    assert(displaced_waker(mi, s[i]) == Some(w));
    assert(woken(mi, r) =~= seq![w].add(woken(deliver_one(mi, s[i]), s.skip(i + 1))));
    assert(woken(m, p).add(seq![w].add(woken(deliver_one(mi, s[i]), s.skip(i + 1)))) =~= woken(m, p).push(w).add(
        woken(deliver_one(mi, s[i]), s.skip(i + 1)),
    ));
}

/// The slots after polling slot `k` once with each waker of `ws`, in order.
pub open spec fn poll_repeatedly(m: Map<usize, Lifecycle>, k: usize, ws: Seq<std::task::Waker>) -> Map<usize, Lifecycle>
    decreases ws.len(),
{
    if ws.len() == 0 {
        m
    } else {
        poll_repeatedly(poll_slots(m, k, ws[0]), k, ws.drop_first())
    }
}

/// Any number of polls of a completed slot leave the table as it was, so
/// each of them yields the same completion.
pub proof fn lemma_polls_of_completed(m: Map<usize, Lifecycle>, k: usize, ws: Seq<std::task::Waker>)
    requires
        m.contains_key(k),
        m[k].is_completed(),
    ensures
        poll_repeatedly(m, k, ws) == m,
        forall|j: int|
            0 <= j <= ws.len() ==> poll_result(poll_repeatedly(m, k, ws.take(j)), k) == poll_result(m, k),
    decreases ws.len(),
{
    if ws.len() > 0 {
        lemma_polls_of_completed(m, k, ws.drop_first());
    }
    assert forall|j: int| 0 <= j <= ws.len() implies poll_result(poll_repeatedly(m, k, ws.take(j)), k)
        == poll_result(m, k) by {
        lemma_polls_of_completed_prefix(m, k, ws.take(j));
    }
}

proof fn lemma_polls_of_completed_prefix(m: Map<usize, Lifecycle>, k: usize, ws: Seq<std::task::Waker>)
    requires
        m.contains_key(k),
        m[k].is_completed(),
    ensures
        poll_repeatedly(m, k, ws) == m,
    decreases ws.len(),
{
    if ws.len() > 0 {
        lemma_polls_of_completed_prefix(m, k, ws.drop_first());
    }
}

/// The slots after a run of pushes that were given the keys `ks`, in order.
pub open spec fn push_keys(m: Map<usize, Lifecycle>, ks: Seq<usize>) -> Map<usize, Lifecycle>
    decreases ks.len(),
{
    if ks.len() == 0 {
        m
    } else {
        push_keys(m, ks.drop_last()).insert(ks.last(), Lifecycle::Submitted)
    }
}

/// Successive pushes, each given a key vacant at its time, get pairwise
/// distinct keys; all of them stay in the table, each `Submitted`, and every
/// slot that was there before is kept: no two operations share a slot.
pub proof fn lemma_pushes_distinct(m: Map<usize, Lifecycle>, ks: Seq<usize>)
    requires
        forall|i: int| 0 <= i < ks.len() ==> !push_keys(m, ks.take(i)).contains_key(#[trigger] ks[i]),
    ensures
        forall|i: int, j: int| 0 <= i < j < ks.len() ==> ks[i] != ks[j],
        forall|i: int| 0 <= i < ks.len() ==> push_keys(m, ks).contains_key(ks[i]) && push_keys(m, ks)[ks[i]]
            == Lifecycle::Submitted,
        forall|k: usize| #[trigger] m.contains_key(k) ==> push_keys(m, ks).contains_key(k) && push_keys(m, ks)[k] == m[k],
    decreases ks.len(),
{
    if ks.len() > 0 {
        let n = ks.len() - 1;
        let front = ks.drop_last();
        assert forall|i: int| 0 <= i < front.len() implies !push_keys(m, front.take(i)).contains_key(#[trigger] front[i]) by {
            assert(front.take(i) =~= ks.take(i));
            assert(front[i] == ks[i]);
        }
        lemma_pushes_distinct(m, front);
        assert(ks.take(n) =~= front);
        assert(!push_keys(m, front).contains_key(ks[n]));
        assert forall|i: int, j: int| 0 <= i < j < ks.len() implies ks[i] != ks[j] by {
            if j == n {
                assert(front[i] == ks[i]);
            } else {
                assert(front[i] == ks[i] && front[j] == ks[j]);
            }
        }
        assert forall|i: int| 0 <= i < ks.len() implies push_keys(m, ks).contains_key(ks[i]) && push_keys(m, ks)[ks[i]]
            == Lifecycle::Submitted by {
            if i < n {
                assert(front[i] == ks[i]);
            }
        }
        assert forall|k: usize| m.contains_key(k) implies push_keys(m, ks).contains_key(k) && push_keys(m, ks)[k]
            == m[k] by {
            assert(push_keys(m, front).contains_key(k));
            assert(k != ks[n]);
        }
    }
}

/// A cancelled operation's slot that has not completed stays in the table,
/// not completed, through any batch without its completion, and no push
/// can be given its key in the meantime.
pub proof fn lemma_cancelled_slot_kept(m: Map<usize, Lifecycle>, s: Seq<Completion>, k: usize, fresh: usize)
    requires
        m.contains_key(k),
        !m[k].is_completed(),
        forall|i: int| 0 <= i < s.len() ==> tag_slot(s[i]) != Some(k),
        !deliver_batch(m, s).contains_key(fresh),
    ensures
        deliver_batch(m, s).contains_key(k),
        !deliver_batch(m, s)[k].is_completed(),
        fresh != k,
{
    lemma_pending_stays(m, s, k);
}

} // verus!
