//! Numbers of the protocol.

use vstd::prelude::*;

verus! {

/// The version of the protocol that is spoken here.
pub const PROTOCOL: u8 = 11;

/// The smallest datagram size that is agreed on by default.
pub const MIN_MTU_SIZE: u16 = 576;

/// The largest datagram size that is agreed on by default.
pub const MAX_MTU_SIZE: u16 = 1400;

/// The datagram sizes that a client asks for, from the smallest up.
pub const MTU_SIZES: [u16; 3] = [576, 1200, 1400];

/// The bytes of a UDP header.
pub const UDP_HEADER_SIZE: u16 = 8;

/// Milliseconds that are added to every retransmission timeout.
pub const CC_ADDITIONAL_VARIANCE: u32 = 30;

/// The longest retransmission timeout, in milliseconds.
pub const CC_MAX_THRESHOLD: u32 = 2000;

} // verus!
