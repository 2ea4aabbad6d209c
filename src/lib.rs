//! A growable sequence that counts the calls that could have changed it.
//!
//! `ChangeTrackingVec<T>` wraps a `Vec<T>`. Every method that obtains
//! mutable access to the contents raises a revision counter by one, whether
//! or not the contents end up different: the signal may report a change that
//! did not happen, but never misses one. Readers either compare revisions
//! they kept themselves, or ask `changed`, which reports whether the revision
//! moved since its own last call.
//!
//! Policies, stated in the contracts:
//! - capacity calls (`reserve`, `shrink_to_fit`, ...) are counted like any
//!   other mutation, since they go through the same mutable access;
//! - `append` counts one change on each of its two sequences;
//! - equality, ordering and hashing look at the elements only;
//! - a counted call requires the counter to have room for one more step
//!   (`can_bump`), so the revision never wraps;
//! - there is no uncounted way to set the length: all mutation is counted;
//! - the counter is a plain `usize` owned by the sequence, so `count` takes
//!   `&mut self`: the values of std's atomics are outside what is proved
//!   here, and a relaxed atomic shared between readers would add nothing
//!   that the contracts could state.
use vstd::prelude::*;

mod compact;
pub mod laws;
mod tracked_vec;
mod vec_calls;

pub use tracked_vec::ChangeTrackingVec;
pub use compact::{keys_match, prior_kept, select};
pub use tracked_vec::{elements_eq, lex_cmp, room_for};
