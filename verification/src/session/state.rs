//! How far a session has come.

use vstd::prelude::*;

verus! {

/// Whether the two ends of a session have agreed on it.
#[derive(Copy, Clone, Debug, PartialEq, Eq, PartialOrd, Ord, Hash, Structural)]
pub enum RakSessionState {
    Connected,
    Disconnected,
}

} // verus!
