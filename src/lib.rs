//! Reliable any-edge interrupts from alternating level interrupts, with
//! pluggable debouncing.
use vstd::prelude::*;

pub mod debounce;
pub mod leveled_edge;

pub use debounce::{ClassicDebounce, Debounce, FilterDebounce, NoDebounce};
pub use leveled_edge::{EdgeState, Reaction, Trigger};

verus! {

} // verus!
