//! A minimal, single-threaded cooperative task runtime with lazy timers.
//!
//! The crate verifies the runtime's decision logic: the one-shot mailbox
//! state machine, the scheduler's task table and ready queue, and the
//! timer wheel with its zombie overflow list.  The surrounding machinery
//! that the logic cannot own (thread parking, the monotonic clock, the
//! raw waker objects, the polling of user futures) lives outside and
//! drives this kernel through its public operations.

pub mod oneshot;
pub mod rt;
pub mod tasks;
pub mod timers;
