//! A table of positions by address.

use crate::net::SocketAddr;
use std::collections::HashMap;
use vstd::prelude::*;

verus! {

/// The first part of what tells an address from others: the host.
pub open spec fn host_of(addr: SocketAddr) -> u128 {
    match addr {
        SocketAddr::V4(v4) => v4.ip as u128,
        SocketAddr::V6(v6) => v6.ip,
    }
}

/// The second part: the version, the port and what else belongs to the address.
pub open spec fn rest_of(addr: SocketAddr) -> u128 {
    match addr {
        SocketAddr::V4(v4) => v4.port as u128,
        SocketAddr::V6(v6) => (0x1_0000 + v6.port + v6.flowinfo * 0x2_0000 + v6.scope_id
            * 0x2_0000_0000_0000) as u128,
    }
}

/// The two parts tell an address from all others.
proof fn parts_tell_apart(a: SocketAddr, b: SocketAddr)
    requires
        host_of(a) == host_of(b),
        rest_of(a) == rest_of(b),
    ensures
        a == b,
{
}

/// Tells the two parts of an address.
fn parts(addr: SocketAddr) -> (p: (u128, u128))
    ensures
        p.0 == host_of(addr),
        p.1 == rest_of(addr),
{
    match addr {
        SocketAddr::V4(v4) => (v4.ip as u128, v4.port as u128),
        SocketAddr::V6(v6) => {
            let port: u128 = v6.port as u128;
            let flowinfo: u128 = v6.flowinfo as u128;
            let scope_id: u128 = v6.scope_id as u128;
            (v6.ip, 0x1_0000 + port + flowinfo * 0x2_0000 + scope_id * 0x2_0000_0000_0000)
        },
    }
}

/// A table of positions by address: by host, and then by the rest of the address. Its view is
/// the table.
#[derive(Debug)]
pub struct AddrIndex {
    hosts: HashMap<u128, HashMap<u128, usize>>,
}

impl View for AddrIndex {
    type V = Map<SocketAddr, usize>;

    closed spec fn view(&self) -> Map<SocketAddr, usize> {
        Map::new(
            |a: SocketAddr|
                self.hosts@.contains_key(host_of(a)) && self.hosts@[host_of(a)]@.contains_key(
                    rest_of(a),
                ),
            |a: SocketAddr| self.hosts@[host_of(a)]@[rest_of(a)],
        )
    }
}

impl AddrIndex {
    /// A table without entries.
    pub fn new() -> (index: AddrIndex)
        ensures
            index@ == Map::<SocketAddr, usize>::empty(),
    {
        broadcast use vstd::std_specs::hash::group_hash_axioms;

        let index = AddrIndex { hosts: HashMap::new() };
        assert(index@ =~= Map::<SocketAddr, usize>::empty());
        index
    }

    /// The position of `addr`.
    pub fn get(&self, addr: SocketAddr) -> (position: Option<usize>)
        ensures
            match position {
                Some(i) => self@.contains_key(addr) && i == self@[addr],
                None => !self@.contains_key(addr),
            },
    {
        broadcast use vstd::std_specs::hash::group_hash_axioms;

        let (host, rest) = parts(addr);
        match self.hosts.get(&host) {
            Some(ports) => match ports.get(&rest) {
                Some(i) => Some(*i),
                None => None,
            },
            None => None,
        }
    }

    /// Gives `addr` the position `i`.
    pub fn insert(&mut self, addr: SocketAddr, i: usize)
        ensures
            final(self)@ == old(self)@.insert(addr, i),
    {
        broadcast use vstd::std_specs::hash::group_hash_axioms;

        let ghost before = *self;
        let (host, rest) = parts(addr);
        let mut ports: HashMap<u128, usize> = match self.hosts.remove(&host) {
            Some(ports) => ports,
            None => HashMap::new(),
        };
        ports.insert(rest, i);
        self.hosts.insert(host, ports);
        proof {
            let expected = before@.insert(addr, i);
            assert forall|a: SocketAddr| #[trigger] self@.contains_key(a) == expected.contains_key(
                a,
            ) && (self@.contains_key(a) ==> self@[a] == expected[a]) by {
                if host_of(a) == host && rest_of(a) == rest {
                    parts_tell_apart(a, addr);
                }
            }
            assert(self@ =~= expected);
        }
    }

    /// Takes out the position of `addr`.
    pub fn remove(&mut self, addr: SocketAddr)
        ensures
            final(self)@ == old(self)@.remove(addr),
    {
        broadcast use vstd::std_specs::hash::group_hash_axioms;

        let ghost before = *self;
        let (host, rest) = parts(addr);
        if let Some(mut ports) = self.hosts.remove(&host) {
            ports.remove(&rest);
            if ports.len() > 0 {
                self.hosts.insert(host, ports);
            } else {
                assert(ports@.dom() =~= Set::<u128>::empty());
            }
        }
        proof {
            let expected = before@.remove(addr);
            assert forall|a: SocketAddr| #[trigger] self@.contains_key(a) == expected.contains_key(
                a,
            ) && (self@.contains_key(a) ==> self@[a] == expected[a]) by {
                if host_of(a) == host && rest_of(a) == rest {
                    parts_tell_apart(a, addr);
                }
                if before.hosts@.contains_key(host) {
                    let ports = before.hosts@[host]@.remove(rest);
                    assert(ports.contains_key(rest_of(a)) ==> rest_of(a) != rest);
                }
            }
            assert(self@ =~= expected);
        }
    }

    /// Takes out everything.
    pub fn clear(&mut self)
        ensures
            final(self)@ == Map::<SocketAddr, usize>::empty(),
    {
        broadcast use vstd::std_specs::hash::group_hash_axioms;

        self.hosts.clear();
        assert(self@ =~= Map::<SocketAddr, usize>::empty());
    }
}

} // verus!
