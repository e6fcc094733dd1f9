//! A threaded-comment storage engine for many independent discussion
//! channels: insertion-ordered, recursively nested comment trees with
//! author-gated mutation, cursor pagination, per-user metadata tagging, and a
//! node registry with an all-or-nothing scaling workflow.
use vstd::prelude::*;

pub mod channel;
pub mod laws;
pub mod node;
pub mod page;
pub mod thread;
