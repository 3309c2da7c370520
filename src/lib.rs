//! Completion-queue operation lifecycle engine.
//!
//! A slot table correlates kernel completions with the operations that
//! wait for them; each slot moves `Submitted -> Waiting -> Completed` (or
//! straight to `Completed`) and is only reclaimed once it has completed.

pub mod completion;
pub mod engine;
pub mod enqueue;
pub mod laws;
pub mod lifecycle;
pub mod op;
pub mod slots;

pub use completion::Completion;
pub use engine::IoUringAsync;
pub use lifecycle::Lifecycle;
pub use op::{Op, OpInner};
pub use slots::{Drain, SlotTable};
