use raknet::bevy_raknet::client::{RakClient, RakClientAction, RakClientEvent, RakClientWork};
use raknet::bevy_raknet::server::{
    RakServer, RakServerAction, RakServerEvent, RakServerUpdate, RakServerWork,
};
use raknet::bevy_raknet::{RakPhase, RakReceived, MAX_DATAGRAMS_PER_TICK};
use raknet::client::config::RakClientConfig;
use raknet::client::error::RakClientError;
use raknet::client::input::{RakClientExchange, RakClientStep};
use raknet::net::{SocketAddr, SocketAddrV4};
use raknet::protocol::packets::connection::{ConnectionRequestAccepted, NewIncomingConnection};
use raknet::protocol::packets::open_connection::{
    OpenConnectionReply1, OpenConnectionReply2, OpenConnectionRequest2,
};
use raknet::protocol::packets::ping::{UnconnectedPing, UnconnectedPong};
use raknet::server::config::RakServerConfig;
use raknet::server::input::RakServerStep;
use raknet::session::{
    RakDisconnectReason, RakSessionError, RakSessionId, RakSessionInput, RakSessionOutput,
};
use raknet::time::{Duration, SystemTime};
use raknet::types::priority::RakPriority;
use raknet::types::reliability::RakReliability;
use raknet::util::constants;

fn localhost(port: u16) -> SocketAddr {
    SocketAddr::V4(SocketAddrV4 { ip: 0x7f00_0001, port })
}

fn at(secs: u64) -> SystemTime {
    SystemTime { nanos: secs as i128 * 1_000_000_000 }
}

fn request_2(client: u64) -> Vec<u8> {
    let mut buf = Vec::new();
    OpenConnectionRequest2 {
        cookie: None,
        addr: localhost(19132),
        mtu: constants::MIN_MTU_SIZE,
        client,
    }
    .serialize(&mut buf);
    buf
}

fn incoming() -> Vec<u8> {
    let mut buf = Vec::new();
    NewIncomingConnection {
        server_address: localhost(19132),
        internal_addresses: vec![],
        incoming_timestamp: 1,
        server_timestamp: 2,
    }
    .serialize(&mut buf);
    buf
}

/// Runs an update in which nothing is received; tells what was asked for.
fn finish(server: &mut RakServer<u32>, update: &mut RakServerUpdate) -> Vec<RakServerWork> {
    let mut asked = Vec::new();
    loop {
        match server.work(update) {
            RakServerWork::Receive => {
                server.received(update, RakReceived::Nothing).unwrap();
            }
            RakServerWork::Finish => return asked,
            work => asked.push(work),
        }
    }
}

/// A server with the sessions of the peers at ports 1 and 2 connected.
fn connected() -> RakServer<u32> {
    let mut server: RakServer<u32> = RakServer::new(localhost(19132), RakServerConfig::default());
    let mut update = server.update(at(100));
    for port in [1, 2] {
        let peer = localhost(port);
        assert!(server.admits_datagram(&request_2(port as u64), peer, at(100)));
        server
            .received(&mut update, RakReceived::Datagram(request_2(port as u64), peer))
            .unwrap();
        *server.pending_protocol_mut(peer).unwrap() = Some(port as u32);
        assert_eq!(server.pending(peer).unwrap().guid, port as u64);
        let r = server.session_polled(peer, Some(RakSessionOutput::Packet(incoming())), at(100));
        assert!(matches!(r, Ok(RakServerStep::Done)));
    }
    let asked = finish(&mut server, &mut update);
    assert_eq!(asked.len(), 6);
    assert!(matches!(asked[0], RakServerWork::Act(RakServerAction::SendTo(_, _))));
    assert!(matches!(
        asked[1],
        RakServerWork::Act(RakServerAction::Connected(id)) if id == RakSessionId(0)
    ));
    for work in &asked[4..] {
        assert!(matches!(
            work,
            RakServerWork::Update(_, RakSessionInput::Update(now)) if *now == at(100)
        ));
    }
    server
}

#[test]
fn connected_sessions_are_told_of() {
    let mut server = connected();
    assert_eq!(
        server.next_event(),
        Some(RakServerEvent::SessionConnected {
            id: RakSessionId(0),
            addr: localhost(1),
            guid: 1,
        })
    );
    assert!(matches!(server.next_event(), Some(RakServerEvent::SessionConnected { .. })));
    assert_eq!(server.next_event(), None);
    let mut ids = server.sessions();
    ids.sort_by_key(|id| id.0);
    assert_eq!(ids, vec![RakSessionId(0), RakSessionId(1)]);
    assert_eq!(server.session(RakSessionId(1)).unwrap().protocol, Some(2));
    *server.protocol_mut(RakSessionId(1)).unwrap() = Some(20);
    assert_eq!(server.session(RakSessionId(1)).unwrap().protocol, Some(20));
    assert!(server.protocol_mut(RakSessionId(9)).is_none());
}

#[test]
fn sending_needs_a_session() {
    let server = connected();
    match server.send(
        RakSessionId(0),
        b"abc".to_vec(),
        RakReliability::Reliable,
        RakPriority::Low,
        at(101),
    ) {
        Ok(RakSessionInput::Send(buf, reliability, priority, now)) => {
            assert_eq!(buf, b"abc".to_vec());
            assert_eq!(reliability, RakReliability::Reliable);
            assert_eq!(priority, RakPriority::Low);
            assert_eq!(now, at(101));
        }
        _ => panic!("not sent"),
    }
    assert!(matches!(
        server.send(
            RakSessionId(5),
            vec![],
            RakReliability::Reliable,
            RakPriority::Low,
            at(101)
        ),
        Err(RakSessionError::Closed)
    ));
    assert!(matches!(
        server.disconnect(RakSessionId(0), at(101)),
        Some(RakSessionInput::Disconnect(now)) if now == at(101)
    ));
    assert!(server.disconnect(RakSessionId(5), at(101)).is_none());
}

#[test]
fn broadcast_and_farewell_reach_every_session() {
    let server = connected();
    let inputs = server.broadcast(
        &b"all".to_vec(),
        RakReliability::ReliableOrdered,
        RakPriority::High,
        at(101),
    );
    let mut ids: Vec<u64> = inputs.iter().map(|i| i.0 .0).collect();
    ids.sort();
    assert_eq!(ids, vec![0, 1]);
    for (_, input) in inputs {
        assert!(matches!(
            input,
            RakSessionInput::Send(buf, RakReliability::ReliableOrdered, RakPriority::High, _)
                if buf == b"all".to_vec()
        ));
    }
    let farewells = server.farewells(at(102));
    assert_eq!(farewells.len(), 2);
    assert!(farewells
        .iter()
        .all(|f| matches!(f.1, RakSessionInput::Disconnect(now) if now == at(102))));
}

#[test]
fn session_outputs_are_sorted() {
    let mut server = connected();
    while server.next_event().is_some() {}
    let mut disconnected = Vec::new();
    let sent = server.drain(
        RakSessionId(1),
        vec![
            RakSessionOutput::Packet(vec![1]),
            RakSessionOutput::Datagram(vec![2], localhost(2)),
            RakSessionOutput::Wait(Duration::from_millis(1)),
            RakSessionOutput::Disconnected(RakSessionId(1), RakDisconnectReason::TimedOut),
            RakSessionOutput::Packet(vec![3]),
        ],
        &mut disconnected,
    );
    assert_eq!(sent, vec![(vec![2], localhost(2))]);
    assert_eq!(disconnected, vec![(RakSessionId(1), RakDisconnectReason::TimedOut)]);
    assert_eq!(server.recv(), Some((RakSessionId(1), vec![1])));
    assert_eq!(server.recv(), Some((RakSessionId(1), vec![3])));
    assert_eq!(server.recv(), None);

    server.remove_sessions(disconnected, at(101));
    assert_eq!(
        server.next_event(),
        Some(RakServerEvent::SessionDisconnected {
            id: RakSessionId(1),
            reason: RakDisconnectReason::TimedOut,
        })
    );
    assert_eq!(server.sessions(), vec![RakSessionId(0)]);
}

#[test]
fn update_removes_sessions_that_are_over_at_its_end() {
    let mut server = connected();
    while server.next_event().is_some() {}
    let mut update = server.update(at(101));
    let r = server.received(&mut update, RakReceived::Datagram(vec![0x84], localhost(1)));
    assert!(matches!(r, Ok(RakServerStep::Done)));
    server.received(&mut update, RakReceived::Failed).unwrap();
    assert_eq!(update.phase, RakPhase::Receiving(MAX_DATAGRAMS_PER_TICK - 2));
    server.received(&mut update, RakReceived::Nothing).unwrap();

    assert!(matches!(
        server.work(&mut update),
        RakServerWork::Act(RakServerAction::Forward(id, RakSessionInput::Datagram(_, _)))
            if id == RakSessionId(0)
    ));
    let mut updated = 0;
    while let RakServerWork::Update(id, _) = server.work(&mut update) {
        let sent = server.updated(
            &mut update,
            id,
            vec![RakSessionOutput::Disconnected(id, RakDisconnectReason::ClosedByRemote)],
        );
        assert!(sent.is_empty());
        updated += 1;
        assert_eq!(server.sessions().len(), 2);
        if updated == 2 {
            break;
        }
    }
    assert!(matches!(server.work(&mut update), RakServerWork::Finish));
    assert!(server.sessions().is_empty());
    assert!(matches!(server.next_event(), Some(RakServerEvent::SessionDisconnected { .. })));
    assert!(matches!(server.next_event(), Some(RakServerEvent::SessionDisconnected { .. })));
    assert!(matches!(server.work(&mut update), RakServerWork::Finish));
}

#[test]
fn update_reads_no_more_than_its_share() {
    let mut server: RakServer<u32> = RakServer::new(localhost(19132), RakServerConfig::default());
    let mut update = server.update(at(100));
    let mut reads = 0;
    while let RakServerWork::Receive = server.work(&mut update) {
        server.received(&mut update, RakReceived::Failed).unwrap();
        reads += 1;
    }
    assert_eq!(reads, MAX_DATAGRAMS_PER_TICK);
}

#[test]
fn settings_reach_the_inner_server() {
    let mut server = connected();
    server.set_message(b"xyz".to_vec());
    server.set_max_connections(2);
    let mut ping = Vec::new();
    UnconnectedPing { timestamp: 1, client: 2 }.serialize(&mut ping);
    let mut update = server.update(at(102));
    server.received(&mut update, RakReceived::Datagram(ping, localhost(9))).unwrap();
    server
        .received(&mut update, RakReceived::Datagram(request_2(3), localhost(9)))
        .unwrap();
    server.received(&mut update, RakReceived::Nothing).unwrap();
    match server.work(&mut update) {
        RakServerWork::Act(RakServerAction::SendTo(buf, _)) => {
            assert_eq!(buf[buf.len() - 3..], *b"xyz")
        }
        _ => panic!("no pong"),
    }
    match server.work(&mut update) {
        RakServerWork::Act(RakServerAction::SendTo(buf, _)) => assert_eq!(
            buf[0],
            raknet::util::packet_id::NO_FREE_INCOMING_CONNECTIONS
        ),
        _ => panic!("not refused"),
    }
}

/// A client with its session connected.
fn connected_client() -> RakClient<u32> {
    let server = localhost(19132);
    let mut client: RakClient<u32> = RakClient::new(RakClientConfig::default(), at(100));
    client.connect(server, at(100));
    let mut update = client.update(at(100));
    let mut buf = Vec::new();
    OpenConnectionReply1 { guid: 3, cookie: None, mtu: 1000 }.serialize(&mut buf);
    client.received(&mut update, RakReceived::Datagram(buf, server)).unwrap();
    let mut buf = Vec::new();
    OpenConnectionReply2 { guid: 3, addr: localhost(1), mtu: 1000, security: false }
        .serialize(&mut buf);
    let r = client.received(&mut update, RakReceived::Datagram(buf, server));
    let exchange = match r {
        Ok(RakClientStep::Handle(_, exchange)) => exchange,
        _ => panic!("no request"),
    };
    *client.pending_protocol_mut().unwrap() = Some(8);
    assert_eq!(client.pending().unwrap().mtu, 1000);
    client.session_handled(exchange, Ok(())).unwrap();
    let mut buf = Vec::new();
    ConnectionRequestAccepted {
        client_address: localhost(1),
        system_index: 0,
        system_addresses: vec![],
        request_timestamp: 5,
        timestamp: 6,
    }
    .serialize(&mut buf);
    let exchange = RakClientExchange { opening: false, ..exchange };
    let exchange = match client.session_polled(exchange, Some(RakSessionOutput::Packet(buf))) {
        Ok(RakClientStep::Handle(_, exchange)) => exchange,
        _ => panic!("not accepted"),
    };
    client.session_polled(exchange, None).unwrap();
    assert!(!client.is_connected());

    client.received(&mut update, RakReceived::Nothing).unwrap();
    assert!(matches!(client.work(&mut update), RakClientWork::Timed(Ok(()))));
    let mut told = false;
    loop {
        match client.work(&mut update) {
            RakClientWork::Act(RakClientAction::Connected) => told = true,
            RakClientWork::Act(_) => {}
            RakClientWork::Update(RakSessionInput::Update(now)) => {
                assert_eq!(now, at(100));
                break;
            }
            _ => panic!("not updated"),
        }
    }
    assert!(told);
    assert!(matches!(client.work(&mut update), RakClientWork::Finish));
    assert!(client.is_connected());
    client
}

#[test]
fn client_connects_sends_and_receives() {
    let mut client = connected_client();
    assert_eq!(client.next_event(), Some(RakClientEvent::Connected));
    assert_eq!(client.next_event(), None);
    assert_eq!(client.session().unwrap().protocol, Some(8));
    *client.protocol_mut().unwrap() = Some(9);
    assert_eq!(client.session().unwrap().protocol, Some(9));
    assert!(matches!(
        client.send(b"a".to_vec(), RakReliability::Reliable, RakPriority::Low, at(101)),
        Ok(RakSessionInput::Send(buf, _, _, _)) if buf == b"a".to_vec()
    ));
    let sent = client.drain(vec![
        RakSessionOutput::Datagram(vec![1], localhost(19132)),
        RakSessionOutput::Packet(vec![2]),
        RakSessionOutput::Packet(vec![3]),
    ]);
    assert_eq!(sent, vec![(vec![1], localhost(19132))]);
    assert_eq!(client.recv(), Some(vec![2]));
    assert_eq!(client.recv(), Some(vec![3]));
    assert_eq!(client.recv(), None);
    assert!(client.is_connected());

    let mut update = client.update(at(101));
    client
        .received(&mut update, RakReceived::Datagram(vec![0x84], localhost(19132)))
        .unwrap();
    client.received(&mut update, RakReceived::Nothing).unwrap();
    assert!(matches!(client.work(&mut update), RakClientWork::Timed(Ok(()))));
    assert!(matches!(
        client.work(&mut update),
        RakClientWork::Act(RakClientAction::Forward(RakSessionInput::Datagram(_, _)))
    ));
}

#[test]
fn ended_session_lets_the_client_connect_again() {
    let mut client = connected_client();
    client.next_event();
    assert!(matches!(client.disconnect(at(101)), Some(RakSessionInput::Disconnect(_))));
    client.drain(vec![
        RakSessionOutput::Disconnected(RakSessionId(0), RakDisconnectReason::TimedOut),
        RakSessionOutput::Disconnected(RakSessionId(0), RakDisconnectReason::Closed),
    ]);
    assert_eq!(
        client.next_event(),
        Some(RakClientEvent::Disconnected { reason: RakDisconnectReason::Closed })
    );
    assert_eq!(client.next_event(), None);
    assert!(!client.is_connected());
    assert!(client.disconnect(at(101)).is_none());
    assert!(matches!(
        client.send(vec![], RakReliability::Reliable, RakPriority::Low, at(101)),
        Err(RakSessionError::Closed)
    ));
    client.connect(localhost(19132), at(102));
    let mut update = client.update(at(102));
    client.received(&mut update, RakReceived::Nothing).unwrap();
    client.work(&mut update);
    assert!(matches!(
        client.work(&mut update),
        RakClientWork::Act(RakClientAction::SendTo(buf, _)) if buf.len() == 1400
    ));
}

#[test]
fn client_is_told_of_pongs_and_failures() {
    let mut client: RakClient<u32> = RakClient::new(RakClientConfig::default(), at(100));
    client.ping(localhost(19132), at(100));
    let mut buf = Vec::new();
    let pong = UnconnectedPong { timestamp: 100_000, guid: 3, message: b"hi".to_vec() };
    pong.serialize(&mut buf).unwrap();
    let mut update = client.update(at(100));
    client
        .received(&mut update, RakReceived::Datagram(buf, localhost(19132)))
        .unwrap();
    client.received(&mut update, RakReceived::Nothing).unwrap();
    loop {
        if let RakClientWork::Finish = client.work(&mut update) {
            break;
        }
    }
    assert_eq!(
        client.recv_pong(),
        Some((localhost(19132), b"hi".to_vec(), at(100)))
    );
    assert_eq!(client.recv_pong(), None);

    client.connect(localhost(19132), at(100));
    let mut update = client.update(at(110));
    client.received(&mut update, RakReceived::Nothing).unwrap();
    assert!(matches!(
        client.work(&mut update),
        RakClientWork::Timed(Err(RakClientError::ConnectionFailed))
    ));
}

#[test]
fn update_keeps_the_order_of_what_comes_in() {
    let mut client: RakClient<u32> = RakClient::new(RakClientConfig::default(), at(100));
    let mut update = client.update(at(100));
    for (port, message) in [(1, b"one"), (2, b"two")] {
        let mut buf = Vec::new();
        let pong = UnconnectedPong { timestamp: 0, guid: 3, message: message.to_vec() };
        pong.serialize(&mut buf).unwrap();
        client
            .received(&mut update, RakReceived::Datagram(buf, localhost(port)))
            .unwrap();
    }
    client.received(&mut update, RakReceived::Nothing).unwrap();
    let mut acts = 0;
    loop {
        match client.work(&mut update) {
            RakClientWork::Act(_) => acts += 1,
            RakClientWork::Timed(Ok(())) => {}
            RakClientWork::Finish => break,
            _ => panic!("nothing else is asked for"),
        }
    }
    assert_eq!(acts, 3);
    assert_eq!(client.recv_pong().unwrap().1, b"one".to_vec());
    assert_eq!(client.recv_pong().unwrap().1, b"two".to_vec());
    assert!(client.recv_pong().is_none());
    assert!(client.next_event().is_none());

    // A server tells of sessions that join before those that leave, and packets come in the
    // order in which the sessions are updated.
    let mut server = connected();
    let mut update = server.update(at(101));
    server.received(&mut update, RakReceived::Nothing).unwrap();
    let mut order = Vec::new();
    while let RakServerWork::Update(id, _) = server.work(&mut update) {
        order.push(id);
        server.updated(
            &mut update,
            id,
            vec![
                RakSessionOutput::Packet(vec![id.0 as u8]),
                RakSessionOutput::Disconnected(id, RakDisconnectReason::TimedOut),
            ],
        );
    }
    assert_eq!(order.len(), 2);
    for id in &order {
        assert_eq!(server.recv(), Some((*id, vec![id.0 as u8])));
    }
    for _ in 0..2 {
        assert!(matches!(server.next_event(), Some(RakServerEvent::SessionConnected { .. })));
    }
    for left in order {
        assert_eq!(
            server.next_event(),
            Some(RakServerEvent::SessionDisconnected {
                id: left,
                reason: RakDisconnectReason::TimedOut,
            })
        );
    }
    assert!(server.sessions().is_empty());
}
