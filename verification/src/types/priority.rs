//! How soon a packet is to be sent.

use vstd::prelude::*;

verus! {

/// How soon a packet is to be sent.
#[derive(Clone, Copy, Debug, PartialEq, Eq, Hash, Structural)]
pub enum RakPriority {
    /// At once, without waiting for others.
    Immediate,
    High,
    Medium,
    Low,
}

} // verus!
