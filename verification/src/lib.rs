//! An unbounded channel queue: a singly linked list with an adaptive dequeue
//! protocol that starts on an exclusive single-receiver fast path and, once
//! receiver contention is observed, permanently switches to a safe
//! multi-receiver path with deferred node reclamation.

pub mod err;
pub mod list;
pub mod monitor;
