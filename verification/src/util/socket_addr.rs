//! What an address tells of the datagrams that carry it.

use crate::net::SocketAddr;
use vstd::prelude::*;

verus! {

/// The bytes of an IP header on the way to `addr`.
pub open spec fn overhead(addr: SocketAddr) -> u16 {
    match addr {
        SocketAddr::V4(_) => 20,
        SocketAddr::V6(_) => 40,
    }
}

/// The bytes of an IP header on the way to `addr`.
pub fn get_overhead(addr: &SocketAddr) -> (n: u16)
    ensures
        n == overhead(*addr),
{
    match addr {
        SocketAddr::V4(_) => 20,
        SocketAddr::V6(_) => 40,
    }
}

} // verus!
