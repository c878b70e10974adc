//! What is promised of the delivery of a packet.

use vstd::prelude::*;

verus! {

/// What is promised of the delivery of a packet.
#[derive(Clone, Copy, Debug, PartialEq, Eq, Hash, Structural)]
pub enum RakReliability {
    Unreliable,
    UnreliableSequenced,
    Reliable,
    ReliableOrdered,
    ReliableSequenced,
    UnreliableWithAckReceipt,
    ReliableWithAckReceipt,
    ReliableOrderedWithAckReceipt,
}

} // verus!
