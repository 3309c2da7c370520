use std::sync::atomic::{AtomicUsize, Ordering};
use std::sync::Arc;
use std::task::{Wake, Waker};

use io_uring_async::enqueue::{enqueue_step, EnqueueAction, EnqueueEvent, EnqueueState};
use io_uring_async::{Completion, Lifecycle, Op, SlotTable};

fn wake_all(ws: Vec<Waker>) {
    for w in ws {
        w.wake();
    }
}

struct CountingWaker {
    wakes: AtomicUsize,
}

impl Wake for CountingWaker {
    fn wake(self: Arc<Self>) {
        self.wakes.fetch_add(1, Ordering::SeqCst);
    }
}

fn counting_waker() -> (Arc<CountingWaker>, Waker) {
    let c = Arc::new(CountingWaker { wakes: AtomicUsize::new(0) });
    let w = Waker::from(c.clone());
    (c, w)
}

fn wakes(c: &Arc<CountingWaker>) -> usize {
    c.wakes.load(Ordering::SeqCst)
}

#[test]
fn two_ops_resolve_in_reverse_arrival_order() {
    let mut slots = SlotTable::new();
    let op1 = Op::submitted(&mut slots);
    let op2 = Op::submitted(&mut slots);
    assert_ne!(op1.index(), op2.index());
    let (c1, w1) = counting_waker();
    let (c2, w2) = counting_waker();
    assert_eq!(op1.poll(&mut slots, w1), None);
    assert_eq!(op2.poll(&mut slots, w2), None);
    let second = Completion::new(op2.index() as u64, 0, 0);
    let first = Completion::new(op1.index() as u64, 7, 0);
    let drained = slots.deliver_all(&vec![second, first]);
    assert!(drained.refused.is_empty());
    assert_eq!(drained.wakers.len(), 2);
    let mut wakers = drained.wakers.into_iter();
    wakers.next().unwrap().wake();
    assert_eq!((wakes(&c1), wakes(&c2)), (0, 1));
    wakers.next().unwrap().wake();
    assert_eq!((wakes(&c1), wakes(&c2)), (1, 1));
    let (_, w) = counting_waker();
    let r1 = op1.poll(&mut slots, w.clone()).unwrap();
    let r2 = op2.poll(&mut slots, w).unwrap();
    assert_eq!(r1.user_data(), op1.index() as u64);
    assert_eq!(r1.result(), 7);
    assert_eq!(r2.user_data(), op2.index() as u64);
    assert_eq!(r2.result(), 0);
}

#[test]
fn duplicate_completion_is_refused_without_a_second_wake() {
    let mut slots = SlotTable::new();
    let op = Op::submitted(&mut slots);
    let (c, w) = counting_waker();
    assert_eq!(op.poll(&mut slots, w), None);
    let tag = op.index() as u64;
    let batch = vec![Completion::new(tag, 3, 0), Completion::new(tag, 9, 2)];
    let drained = slots.deliver_all(&batch);
    assert_eq!(drained.refused, vec![Completion::new(tag, 9, 2)]);
    assert_eq!(drained.wakers.len(), 1);
    wake_all(drained.wakers);
    assert_eq!(wakes(&c), 1);
    let again = slots.deliver_all(&vec![Completion::new(tag, 4, 0)]);
    assert!(again.wakers.is_empty());
    assert_eq!(again.refused, vec![Completion::new(tag, 4, 0)]);
    assert_eq!(wakes(&c), 1);
    let (_, w) = counting_waker();
    assert_eq!(op.poll(&mut slots, w), Some(Completion::new(tag, 3, 0)));
}

#[test]
fn unknown_tag_is_refused() {
    let mut slots = SlotTable::new();
    let op = Op::submitted(&mut slots);
    let stray = Completion::new(op.index() as u64 + 1, 0, 0);
    assert_eq!(slots.deliver(stray).err(), Some(stray));
    assert!(!slots.is_completed(op.index()));
    let far = Completion::new(u64::MAX, -1, 0);
    let drained = slots.deliver_all(&vec![stray, far]);
    assert_eq!(drained.refused, vec![stray, far]);
    assert!(drained.wakers.is_empty());
}

#[test]
fn polling_a_completed_op_repeats_its_result() {
    let mut slots = SlotTable::new();
    let op = Op::submitted(&mut slots);
    assert!(matches!(slots.deliver(Completion::new(op.index() as u64, -11, 0)), Ok(None)));
    for _ in 0..3 {
        let (c, w) = counting_waker();
        assert_eq!(op.poll(&mut slots, w), Some(Completion::new(op.index() as u64, -11, 0)));
        assert_eq!(wakes(&c), 0);
        assert!(slots.contains(op.index()));
    }
}

#[test]
fn completion_before_first_poll_needs_no_waker() {
    let mut slots = SlotTable::new();
    let op = Op::submitted(&mut slots);
    assert!(matches!(slots.deliver(Completion::new(op.index() as u64, 1, 0)), Ok(None)));
    let (_, w) = counting_waker();
    assert_eq!(op.poll(&mut slots, w).map(|c| c.result()), Some(1));
}

#[test]
fn repoll_replaces_the_stored_waker() {
    let mut slots = SlotTable::new();
    let op = Op::submitted(&mut slots);
    let (c1, w1) = counting_waker();
    let (c2, w2) = counting_waker();
    assert_eq!(op.poll(&mut slots, w1), None);
    assert_eq!(op.poll(&mut slots, w2), None);
    let w = slots.deliver(Completion::new(op.index() as u64, 0, 0)).unwrap().unwrap();
    w.wake();
    assert_eq!(wakes(&c1), 0);
    assert_eq!(wakes(&c2), 1);
}

#[test]
fn cancelling_a_pending_op_keeps_its_slot_until_completion() {
    let mut slots = SlotTable::new();
    let mut op = Op::submitted(&mut slots);
    let k = op.index();
    let (c, w) = counting_waker();
    assert_eq!(op.poll(&mut slots, w), None);
    let inner = op.cancel(&mut slots).expect("a pending slot hands its claim on");
    assert_eq!(inner.index(), k);
    assert!(slots.contains(k));
    assert!(!slots.is_completed(k));
    let other = Op::submitted(&mut slots);
    assert_ne!(other.index(), k);
    let drained = slots.deliver_all(&vec![Completion::new(k as u64, 5, 0)]);
    assert!(drained.refused.is_empty());
    wake_all(drained.wakers);
    assert_eq!(wakes(&c), 1);
    let (_, w) = counting_waker();
    assert_eq!(inner.poll(&mut slots, w).map(|c| c.result()), Some(5));
    let done = inner.release(&mut slots);
    assert_eq!(done, Completion::new(k as u64, 5, 0));
    assert!(!slots.contains(k));
}

#[test]
fn cancelling_a_completed_op_frees_its_slot() {
    let mut slots = SlotTable::new();
    let mut op = Op::submitted(&mut slots);
    let k = op.index();
    assert!(slots.deliver(Completion::new(k as u64, 0, 0)).is_ok());
    assert!(op.cancel(&mut slots).is_none());
    assert!(!slots.contains(k));
}

#[test]
fn freed_slot_id_is_reused() {
    let mut slots = SlotTable::new();
    let a = slots.insert_submitted();
    let b = slots.insert_submitted();
    assert_eq!((a, b), (0, 1));
    assert!(slots.deliver(Completion::new(a as u64, 0, 0)).is_ok());
    assert_eq!(slots.remove_completed(a), Completion::new(0, 0, 0));
    assert!(!slots.contains(a));
    assert!(slots.contains(b));
    assert_eq!(slots.insert_submitted(), a);
}

#[test]
fn lifecycle_reports_its_completion() {
    assert_eq!(Lifecycle::Submitted.completed(), None);
    let c = Completion::new(4, -2, 1);
    assert_eq!(Lifecycle::Completed(c).completed(), Some(c));
    assert_eq!((c.user_data(), c.result(), c.flags()), (4, -2, 1));
}

#[test]
fn full_queue_is_flushed_and_the_entry_offered_again() {
    let (s, a) = enqueue_step(EnqueueState::Pending, EnqueueEvent::Full);
    assert_eq!((s, a), (EnqueueState::Flushing, EnqueueAction::Flush));
    let (s, a) = enqueue_step(s, EnqueueEvent::Flushed);
    assert_eq!((s, a), (EnqueueState::Pending, EnqueueAction::Enqueue));
    let (s, a) = enqueue_step(s, EnqueueEvent::Accepted);
    assert_eq!((s, a), (EnqueueState::Queued, EnqueueAction::Finish));
    let (s, a) = enqueue_step(s, EnqueueEvent::Full);
    assert_eq!((s, a), (EnqueueState::Queued, EnqueueAction::Finish));
}

#[test]
fn failed_flush_ends_the_enqueue() {
    let (s, _) = enqueue_step(EnqueueState::Pending, EnqueueEvent::Full);
    let (s, a) = enqueue_step(s, EnqueueEvent::FlushFailed);
    assert_eq!((s, a), (EnqueueState::Failed, EnqueueAction::Fail));
    assert_eq!(enqueue_step(s, EnqueueEvent::Flushed), (EnqueueState::Failed, EnqueueAction::Fail));
}

#[test]
fn completion_accessors_and_waiting_lifecycle() {
    let (_, w) = counting_waker();
    assert_eq!(Lifecycle::Waiting(w).completed(), None);
}

#[test]
fn engine_push_tags_the_entry_with_its_slot() {
    let mut engine = io_uring_async::IoUringAsync::new(8).unwrap();
    let (op1, e1) = engine.push(io_uring::opcode::Nop::new().build().user_data(77));
    let (op2, e2) = engine.push(io_uring::opcode::Nop::new().build());
    assert_eq!(e1.get_user_data(), op1.index() as u64);
    assert_eq!(e2.get_user_data(), op2.index() as u64);
    assert_ne!(op1.index(), op2.index());
    assert!(engine.slots.contains(op1.index()) && engine.slots.contains(op2.index()));
    let drained = engine.handle_cqe();
    assert!(drained.wakers.is_empty() && drained.refused.is_empty());
    assert!(!engine.slots.is_completed(op1.index()));
}
