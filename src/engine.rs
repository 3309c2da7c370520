use vstd::prelude::*;

use crate::completion::Completion;
use crate::op::Op;
use crate::lifecycle::Lifecycle;
use crate::slots::{deliver_batch, discarded, woken, Drain, SlotTable};

verus! {

/// The kernel's submission and completion queue pair with its descriptor.
/// Its contents are opaque here: it is reached only through the functions
/// below.
#[verifier::external_body]
pub struct Ring {
    pub uring: io_uring::IoUring,
}

#[verifier::external_type_specification]
#[verifier::external_body]
pub struct ExSubmissionEntry(io_uring::squeue::Entry);

#[verifier::external_type_specification]
#[verifier::external_body]
pub struct ExIoError(std::io::Error);

/// Relies on `IoUring::new`: sets up a ring of `entries` entries, or
/// reports the system's refusal.
#[verifier::external_body]
fn ring_new(entries: u32) -> (r: Result<Ring, std::io::Error>) {
    io_uring::IoUring::new(entries).map(|uring| Ring { uring })
}

/// Relies on `IoUring::submit`: hands the queued submissions to the kernel
/// and returns how many it took, or the transport's error.
#[verifier::external_body]
fn ring_submit(ring: &Ring) -> (r: Result<usize, std::io::Error>) {
    ring.uring.submit()
}

/// Relies on `IoUring::completion` and its iterator: pops every completion
/// the kernel has posted so far, in queue order, as plain values.
#[verifier::external_body]
fn ring_take_completions(ring: &mut Ring) -> (r: Vec<Completion>) {
    ring.uring.completion()
        .map(|e| Completion { user_data: e.user_data(), result: e.result(), flags: e.flags() })
        .collect()
}

/// The correlation tag a submission entry carries, as
/// `squeue::Entry::get_user_data` reads it back.
pub uninterp spec fn entry_tag(e: io_uring::squeue::Entry) -> u64;

/// Relies on `squeue::Entry::user_data`: the entry with its correlation tag
/// set to `tag`.
#[verifier::external_body]
fn entry_with_tag(entry: io_uring::squeue::Entry, tag: u64) -> (r: io_uring::squeue::Entry)
    ensures
        entry_tag(r) == tag,
{
    entry.user_data(tag)
}

/// The engine: a completion ring and the table of slots that correlates its
/// completions with the operations waiting for them.
pub struct IoUringAsync {
    pub uring: Ring,
    pub slots: SlotTable,
}

impl IoUringAsync {
    /// A ring of `entries` entries and an empty slot table.
    pub fn new(entries: u32) -> (r: Result<IoUringAsync, std::io::Error>)
        ensures
            r matches Ok(e) ==> e.slots@.dom() == Set::<usize>::empty(),
    {
        match ring_new(entries) {
            Ok(uring) => Ok(IoUringAsync { uring, slots: SlotTable::new() }),
            Err(e) => Err(e),
        }
    }

    /// The same as `new`, for the ring's default entry types.
    pub fn generic_new(entries: u32) -> (r: Result<IoUringAsync, std::io::Error>)
        ensures
            r matches Ok(e) ==> e.slots@.dom() == Set::<usize>::empty(),
    {
        IoUringAsync::new(entries)
    }

    /// The ring, for the readiness watcher on its descriptor.
    pub fn ring(&self) -> (r: &Ring) {
        &self.uring
    }

    /// Starts an operation: allocates its slot in `Submitted` and returns
    /// its handle with the entry tagged by the slot's id, ready to be put
    /// on the submission queue.
    pub fn push(&mut self, entry: io_uring::squeue::Entry) -> (r: (Op, io_uring::squeue::Entry))
        ensures
            r.0.is_live(),
            !old(self).slots@.contains_key(r.0.key()),
            final(self).slots@ == old(self).slots@.insert(r.0.key(), Lifecycle::Submitted),
            entry_tag(r.1) == r.0.key() as u64,
            final(self).uring == old(self).uring,
    {
        let op = Op::submitted(&mut self.slots);
        let tag = op.index() as u64;
        (op, entry_with_tag(entry, tag))
    }

    /// Hands the queued submissions to the kernel.
    pub fn submit(&self) -> (r: Result<usize, std::io::Error>) {
        ring_submit(&self.uring)
    }

    /// Drains the completions posted so far into the slot table. Returns
    /// the wakers of the tasks parked on the operations that completed, in
    /// the order their completions came, for the caller to wake; and the
    /// completions that found no slot waiting (duplicates, multi-shot
    /// results, unknown tags), for the caller to report.
    pub fn handle_cqe(&mut self) -> (r: Drain)
        ensures
            exists|batch: Seq<Completion>|
                final(self).slots@ == deliver_batch(old(self).slots@, batch)
                    && r.wakers@ == woken(old(self).slots@, batch)
                    && r.refused@ == discarded(old(self).slots@, batch),
    {
        let batch = ring_take_completions(&mut self.uring);
        self.slots.deliver_all(&batch)
    }
}

} // verus!
