//! Event results.
use vstd::prelude::*;

verus! {

/// Whether a handler consumed an event.
#[derive(Clone, Copy, Debug, PartialEq, Eq, Structural)]
pub enum VxEventResult {
    /// The event is handled; it goes no further.
    Accept,
    /// The event is passed on.
    Ignore,
}

} // verus!
