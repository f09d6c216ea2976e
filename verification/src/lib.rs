//! Capability dispatch: which body runs when a method of a capability is
//! called on a value.
//!
//! The crate answers the question twice. In `typed` the compiler answers
//! it, through traits and trait bounds. In `registry` and `resolver` the
//! program answers it at run time: a registry records which types conform
//! to which capabilities, and a resolver binds the calls of a call site to
//! bodies, for a concrete type that the call site knows or for a handle
//! that only carries the tag of its type. `model` says what both hold and
//! decide, and `laws` states what follows.

pub mod bound;
pub mod error;
mod index;
pub mod laws;
pub mod model;
pub mod registry;
pub mod resolver;
pub mod text;
pub mod typed;
