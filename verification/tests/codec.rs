use raknet::net::{SocketAddr, SocketAddrV4, SocketAddrV6};
use raknet::protocol::codec::{
    get_addr, get_i32, get_u128, get_u16, get_u32, get_u64, put_addr, put_i32, put_u128, put_u16,
    put_u32, put_u64, RakCodecError, MAGIC,
};
use raknet::protocol::packets::connection::{
    ConnectionRequest, ConnectionRequestAccepted, NewIncomingConnection,
};
use raknet::protocol::packets::open_connection::{
    OpenConnectionReply1, OpenConnectionReply2, OpenConnectionRequest1, OpenConnectionRequest2,
};
use raknet::protocol::packets::ping::{UnconnectedPing, UnconnectedPong};
use raknet::protocol::packets::refusal::{
    AlreadyConnected, IncompatibleProtocol, IpRecentlyConnected, NoFreeIncomingConnections,
};
use raknet::util::flags::is_valid;
use raknet::util::packet_id;
use raknet::util::socket_addr::get_overhead;

fn v4() -> SocketAddr {
    SocketAddr::V4(SocketAddrV4 { ip: 0x7f00_0001, port: 19132 })
}

fn v6() -> SocketAddr {
    SocketAddr::V6(SocketAddrV6 { ip: 1, port: 19133, flowinfo: 2, scope_id: 3 })
}

#[test]
fn numbers_are_big_endian() {
    let mut buf = Vec::new();
    put_u16(&mut buf, 0x0102);
    put_u32(&mut buf, 0x0304_0506);
    put_u64(&mut buf, 0x0708_090a_0b0c_0d0e);
    put_i32(&mut buf, -2);
    assert_eq!(
        buf,
        vec![1, 2, 3, 4, 5, 6, 7, 8, 9, 10, 11, 12, 13, 14, 0xff, 0xff, 0xff, 0xfe]
    );
    assert_eq!(get_u16(&buf, 0), 0x0102);
    assert_eq!(get_u32(&buf, 2), 0x0304_0506);
    assert_eq!(get_u64(&buf, 6), 0x0708_090a_0b0c_0d0e);
    assert_eq!(get_i32(&buf, 14), -2);
    let mut buf = Vec::new();
    put_u128(&mut buf, 0xff);
    assert_eq!(buf.len(), 16);
    assert_eq!(buf[15], 0xff);
    assert_eq!(get_u128(&buf, 0), 0xff);
}

#[test]
fn addresses_are_read_back() {
    for addr in [v4(), v6()] {
        let mut buf = Vec::new();
        put_addr(&mut buf, addr);
        assert_eq!(get_addr(&buf, 0), Ok((addr, buf.len())));
        assert_eq!(
            get_addr(&buf[..buf.len() - 1], 0),
            Err(RakCodecError::UnexpectedEnd)
        );
    }
    assert_eq!(get_addr(&[9; 40], 0), Err(RakCodecError::InvalidAddress));
}

#[test]
fn ping_and_pong_are_read_back() {
    let mut buf = Vec::new();
    let ping = UnconnectedPing { timestamp: 1, client: 2 };
    ping.serialize(&mut buf);
    assert_eq!(buf.len(), 33);
    assert_eq!(buf[0], packet_id::UNCONNECTED_PING);
    assert_eq!(buf[9..25], MAGIC);
    assert_eq!(UnconnectedPing::deserialize(&buf), Ok(ping));

    let mut buf = Vec::new();
    let pong = UnconnectedPong { timestamp: 1, guid: 2, message: b"abc".to_vec() };
    pong.serialize(&mut buf).unwrap();
    assert_eq!(buf.len(), 38);
    let read = UnconnectedPong::deserialize(&buf).unwrap();
    assert_eq!((read.timestamp, read.guid), (1, 2));
    assert_eq!(read.message, b"abc".to_vec());
    assert!(matches!(
        UnconnectedPong::deserialize(&buf[..37]),
        Err(RakCodecError::UnexpectedEnd)
    ));

    let long = UnconnectedPong { timestamp: 1, guid: 2, message: vec![0; 0x1_0000] };
    assert!(matches!(long.serialize(&mut Vec::new()), Err(RakCodecError::TooLong)));
}

#[test]
fn requests_and_replies_are_read_back() {
    let mut buf = Vec::new();
    let request = OpenConnectionRequest1 { protocol: 11, mtu: 576 };
    request.serialize(&mut buf);
    assert_eq!(buf.len(), 576);
    assert_eq!(OpenConnectionRequest1::deserialize(&buf), Ok(request));
    assert_eq!(
        OpenConnectionRequest1::deserialize(&buf[..17]),
        Err(RakCodecError::UnexpectedEnd)
    );
    buf.resize(0x1_0000, 0);
    assert_eq!(
        OpenConnectionRequest1::deserialize(&buf),
        Err(RakCodecError::TooLong)
    );

    for cookie in [None, Some(0x1234_5678), Some(-1)] {
        let mut buf = Vec::new();
        let reply = OpenConnectionReply1 { guid: 4, cookie, mtu: 1200 };
        reply.serialize(&mut buf);
        assert_eq!(OpenConnectionReply1::deserialize(&buf), Ok(reply));

        for addr in [v4(), v6()] {
            let mut buf = Vec::new();
            let request = OpenConnectionRequest2 { cookie, addr, mtu: 1200, client: 5 };
            request.serialize(&mut buf);
            assert_eq!(OpenConnectionRequest2::deserialize(&buf), Ok(request));
        }
    }

    for security in [false, true] {
        let mut buf = Vec::new();
        let reply = OpenConnectionReply2 { guid: 4, addr: v6(), mtu: 1200, security };
        reply.serialize(&mut buf);
        assert_eq!(OpenConnectionReply2::deserialize(&buf), Ok(reply));
    }
}

#[test]
fn refusals_are_read_back() {
    let mut buf = Vec::new();
    let refusal = IncompatibleProtocol { protocol: 11, guid: 7 };
    refusal.serialize(&mut buf);
    assert_eq!(IncompatibleProtocol::deserialize(&buf), Ok(refusal));

    let mut buf = Vec::new();
    AlreadyConnected { guid: 7 }.serialize(&mut buf);
    assert_eq!(AlreadyConnected::deserialize(&buf), Ok(AlreadyConnected { guid: 7 }));
    buf[16] ^= 1;
    assert_eq!(AlreadyConnected::deserialize(&buf), Err(RakCodecError::InvalidMagic));

    let mut buf = Vec::new();
    let refusal = NoFreeIncomingConnections { guid: 7 };
    refusal.serialize(&mut buf);
    assert_eq!(NoFreeIncomingConnections::deserialize(&buf), Ok(refusal));

    let mut buf = Vec::new();
    let refusal = IpRecentlyConnected { guid: 7 };
    refusal.serialize(&mut buf);
    assert_eq!(IpRecentlyConnected::deserialize(&buf), Ok(refusal));
}

#[test]
fn connection_packets_are_read_back() {
    let mut buf = Vec::new();
    let request = ConnectionRequest { security: false, client_timestamp: 1, client_guid: 2 };
    request.serialize(&mut buf);
    assert_eq!(ConnectionRequest::deserialize(&buf), Ok(request));
    assert_eq!(
        ConnectionRequest::deserialize(&buf[..17]),
        Err(RakCodecError::UnexpectedEnd)
    );

    let mut buf = Vec::new();
    ConnectionRequestAccepted {
        client_address: v4(),
        system_index: 3,
        system_addresses: vec![v6(), v4()],
        request_timestamp: 4,
        timestamp: 5,
    }
    .serialize(&mut buf);
    let read = ConnectionRequestAccepted::deserialize(&buf).unwrap();
    assert_eq!(read.client_address, v4());
    assert_eq!(read.system_index, 3);
    assert_eq!(read.system_addresses, vec![v6(), v4()]);
    assert_eq!((read.request_timestamp, read.timestamp), (4, 5));

    let mut buf = Vec::new();
    NewIncomingConnection {
        server_address: v4(),
        internal_addresses: vec![v4(); 10],
        incoming_timestamp: 4,
        server_timestamp: 5,
    }
    .serialize(&mut buf);
    let read = NewIncomingConnection::deserialize(&buf).unwrap();
    assert_eq!(read.server_address, v4());
    assert_eq!(read.internal_addresses, vec![v4(); 10]);
    assert_eq!((read.incoming_timestamp, read.server_timestamp), (4, 5));
}

#[test]
fn headers_take_their_bytes() {
    assert_eq!(get_overhead(&v4()), 20);
    assert_eq!(get_overhead(&v6()), 40);
    assert_eq!(v4().port(), 19132);
    assert_eq!(v6().port(), 19133);
}

#[test]
fn high_bit_marks_datagrams_of_a_session() {
    assert!(!is_valid(0x7f));
    assert!(is_valid(0x80));
    assert!(is_valid(0xff));
}

#[test]
fn empty_packets_end_too_early() {
    assert_eq!(UnconnectedPing::deserialize(&[]), Err(RakCodecError::UnexpectedEnd));
    assert_eq!(ConnectionRequest::deserialize(&[]), Err(RakCodecError::UnexpectedEnd));
    assert!(matches!(
        ConnectionRequestAccepted::deserialize(&[]),
        Err(RakCodecError::UnexpectedEnd)
    ));
    assert!(matches!(
        NewIncomingConnection::deserialize(&[]),
        Err(RakCodecError::UnexpectedEnd)
    ));
}
