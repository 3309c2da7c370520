use vstd::prelude::*;

verus! {

#[verifier::external_type_specification]
#[verifier::external_body]
pub struct ExWaker(std::task::Waker);

/// The state of one operation's slot.
pub enum Lifecycle {
    /// Handed to the submission queue; no task waits on it yet.
    Submitted,
    /// A task is parked on the operation; the waker resumes it.
    Waiting(std::task::Waker),
    /// The kernel's completion has arrived.
    Completed(Completion),
}

impl Lifecycle {
    pub open spec fn is_completed(self) -> bool {
        self is Completed
    }

    pub fn completed(&self) -> (r: Option<Completion>)
        ensures
            r == (match *self {
                Lifecycle::Completed(c) => Some(c),
                _ => None,
            }),
    {
        match self {
            Lifecycle::Completed(c) => Some(*c),
            _ => None,
        }
    }
}

} // verus!

use crate::completion::Completion;
