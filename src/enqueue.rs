use vstd::prelude::*;

verus! {

/// Where the enqueueing of one tagged entry stands.
#[derive(Clone, Copy, Debug, PartialEq, Eq, Structural)]
pub enum EnqueueState {
    /// The entry is not on the submission queue yet.
    Pending,
    /// The queue was full; a flush to the kernel was asked for.
    Flushing,
    /// The queue took the entry.
    Queued,
    /// The flush failed; the transport's error goes to the caller.
    Failed,
}

/// What came of the last action.
#[derive(Clone, Copy, Debug, PartialEq, Eq, Structural)]
pub enum EnqueueEvent {
    /// The submission queue took the entry.
    Accepted,
    /// The submission queue was full and refused it.
    Full,
    /// The flush to the kernel succeeded.
    Flushed,
    /// The flush to the kernel failed.
    FlushFailed,
}

/// What to do next.
#[derive(Clone, Copy, Debug, PartialEq, Eq, Structural)]
pub enum EnqueueAction {
    /// Offer the entry to the submission queue (again).
    Enqueue,
    /// Flush the queued entries to the kernel.
    Flush,
    /// Stop: the entry is on the queue.
    Finish,
    /// Stop: report the flush's error.
    Fail,
}

/// The retry rule: a full queue is flushed and the same entry offered again;
/// an accepted entry is never offered again; a failed flush ends the attempt.
/// An event that does not fit the state leaves it as it is.
pub open spec fn enqueue_next(state: EnqueueState, event: EnqueueEvent) -> (EnqueueState, EnqueueAction) {
    match state {
        EnqueueState::Pending => match event {
            EnqueueEvent::Accepted => (EnqueueState::Queued, EnqueueAction::Finish),
            EnqueueEvent::Full => (EnqueueState::Flushing, EnqueueAction::Flush),
            _ => (EnqueueState::Pending, EnqueueAction::Enqueue),
        },
        EnqueueState::Flushing => match event {
            EnqueueEvent::Flushed => (EnqueueState::Pending, EnqueueAction::Enqueue),
            EnqueueEvent::FlushFailed => (EnqueueState::Failed, EnqueueAction::Fail),
            _ => (EnqueueState::Flushing, EnqueueAction::Flush),
        },
        EnqueueState::Queued => (EnqueueState::Queued, EnqueueAction::Finish),
        EnqueueState::Failed => (EnqueueState::Failed, EnqueueAction::Fail),
    }
}

/// One step of the enqueue retry loop.
pub fn enqueue_step(state: EnqueueState, event: EnqueueEvent) -> (r: (EnqueueState, EnqueueAction))
    ensures
        r == enqueue_next(state, event),
{
    match state {
        EnqueueState::Pending => match event {
            EnqueueEvent::Accepted => (EnqueueState::Queued, EnqueueAction::Finish),
            EnqueueEvent::Full => (EnqueueState::Flushing, EnqueueAction::Flush),
            _ => (EnqueueState::Pending, EnqueueAction::Enqueue),
        },
        EnqueueState::Flushing => match event {
            EnqueueEvent::Flushed => (EnqueueState::Pending, EnqueueAction::Enqueue),
            EnqueueEvent::FlushFailed => (EnqueueState::Failed, EnqueueAction::Fail),
            _ => (EnqueueState::Flushing, EnqueueAction::Flush),
        },
        EnqueueState::Queued => (EnqueueState::Queued, EnqueueAction::Finish),
        EnqueueState::Failed => (EnqueueState::Failed, EnqueueAction::Fail),
    }
}

/// The state after a run of events from `state`.
pub open spec fn enqueue_run(state: EnqueueState, events: Seq<EnqueueEvent>) -> EnqueueState
    decreases events.len(),
{
    if events.len() == 0 {
        state
    } else {
        enqueue_run(enqueue_next(state, events[0]).0, events.drop_first())
    }
}

/// How many times a run asks for the entry to be offered to the queue.
pub open spec fn offers(state: EnqueueState, events: Seq<EnqueueEvent>) -> nat
    decreases events.len(),
{
    if events.len() == 0 {
        0
    } else {
        let step = enqueue_next(state, events[0]);
        offers(step.0, events.drop_first()) + if step.1 == EnqueueAction::Enqueue { 1nat } else { 0nat }
    }
}

/// Once the queue has taken the entry, no run of events offers it again or
/// leaves `Queued`: the entry is never duplicated.
pub proof fn lemma_queued_is_final(events: Seq<EnqueueEvent>)
    ensures
        enqueue_run(EnqueueState::Queued, events) == EnqueueState::Queued,
        offers(EnqueueState::Queued, events) == 0,
    decreases events.len(),
{
    if events.len() > 0 {
        lemma_queued_is_final(events.drop_first());
    }
}

/// A full queue followed by a successful flush offers the same entry again,
/// and its acceptance then ends the attempt with the entry queued: the entry
/// is not lost.
pub proof fn lemma_full_then_retry(events: Seq<EnqueueEvent>)
    ensures
        enqueue_next(EnqueueState::Pending, EnqueueEvent::Full) == (EnqueueState::Flushing, EnqueueAction::Flush),
        enqueue_next(EnqueueState::Flushing, EnqueueEvent::Flushed) == (EnqueueState::Pending, EnqueueAction::Enqueue),
        enqueue_run(EnqueueState::Pending, seq![EnqueueEvent::Full, EnqueueEvent::Flushed, EnqueueEvent::Accepted].add(events))
            == EnqueueState::Queued,
{
    let s = seq![EnqueueEvent::Full, EnqueueEvent::Flushed, EnqueueEvent::Accepted].add(events);
    assert(s[0] == EnqueueEvent::Full);
    assert(s.drop_first()[0] == EnqueueEvent::Flushed);
    assert(s.drop_first().drop_first()[0] == EnqueueEvent::Accepted);
    assert(s.drop_first().drop_first().drop_first() =~= events);
    lemma_queued_is_final(events);
    let s1 = s.drop_first();
    let s2 = s1.drop_first();
    assert(enqueue_run(EnqueueState::Pending, s2) == enqueue_run(EnqueueState::Queued, s2.drop_first()));
    assert(enqueue_run(EnqueueState::Flushing, s1) == enqueue_run(EnqueueState::Pending, s2));
    assert(enqueue_run(EnqueueState::Pending, s) == enqueue_run(EnqueueState::Flushing, s1));
}

} // verus!
