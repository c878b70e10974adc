use raknet::net::{SocketAddr, SocketAddrV4, SocketAddrV6};
use raknet::util::addr_map::AddrMap;

fn localhost(port: u16) -> SocketAddr {
    SocketAddr::V4(SocketAddrV4 { ip: 0x7f00_0001, port })
}

#[test]
fn addresses_find_their_values() {
    let mut map: AddrMap<u32> = AddrMap::new();
    map.insert(localhost(1), 10);
    map.insert(localhost(2), 20);
    map.insert(localhost(1), 11);
    assert_eq!(map.len(), 2);
    assert_eq!(map.get(localhost(1)), Some(&11));
    *map.get_mut(localhost(2)).unwrap() += 1;
    assert_eq!(map.remove(localhost(2)), Some(21));
    assert_eq!(map.remove(localhost(2)), None);
    assert!(!map.contains_key(localhost(2)));
    assert!(map.contains_key(localhost(1)));
    map.clear();
    assert_eq!(map.len(), 0);
}

#[test]
fn removal_leaves_the_others_in_reach() {
    let mut map: AddrMap<u32> = AddrMap::new();
    for port in 0..10 {
        map.insert(localhost(port), port as u32);
    }
    assert_eq!(map.remove(localhost(3)), Some(3));
    assert_eq!(map.remove(localhost(9)), Some(9));
    assert_eq!(map.remove(localhost(0)), Some(0));
    assert_eq!(map.len(), 7);
    for port in 0..10 {
        let gone = [0, 3, 9].contains(&port);
        assert_eq!(map.get(localhost(port)).is_none(), gone);
        if !gone {
            assert_eq!(map.get(localhost(port)), Some(&(port as u32)));
        }
    }
    let mut sum = 0;
    for i in 0..map.len() {
        let (addr, value) = map.entry(i);
        assert_eq!(addr.port() as u32, *value);
        sum += *value;
    }
    assert_eq!(sum, 1 + 2 + 4 + 5 + 6 + 7 + 8);
}

#[test]
fn every_part_of_an_address_counts() {
    let v6 = |ip, port, flowinfo, scope_id| {
        SocketAddr::V6(SocketAddrV6 { ip, port, flowinfo, scope_id })
    };
    let addrs = [
        localhost(1),
        v6(0x7f00_0001, 1, 0, 0),
        v6(0x7f00_0001, 2, 0, 0),
        v6(0x7f00_0001, 1, 1, 0),
        v6(0x7f00_0001, 1, 0, 1),
        v6(1, 1, 0, 0),
    ];
    let mut map: AddrMap<usize> = AddrMap::new();
    for (i, addr) in addrs.iter().enumerate() {
        map.insert(*addr, i);
    }
    assert_eq!(map.len(), addrs.len());
    for (i, addr) in addrs.iter().enumerate() {
        assert_eq!(map.get(*addr), Some(&i));
    }
}
