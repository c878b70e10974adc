use raknet::net::{SocketAddr, SocketAddrV4};
use raknet::protocol::codec::RakCodecError;
use raknet::protocol::packets::connection::{ConnectionRequest, NewIncomingConnection};
use raknet::protocol::packets::open_connection::{
    OpenConnectionReply1, OpenConnectionReply2, OpenConnectionRequest1, OpenConnectionRequest2,
};
use raknet::protocol::packets::ping::{UnconnectedPing, UnconnectedPong};
use raknet::protocol::packets::refusal::{
    AlreadyConnected, IncompatibleProtocol, IpRecentlyConnected, NoFreeIncomingConnections,
};
use raknet::server::config::RakServerConfig;
use raknet::server::error::RakServerError;
use raknet::server::input::{RakServerInput, RakServerStep};
use raknet::server::model::PENDING_CONNECTION_TIMEOUT;
use raknet::server::output::RakServerOutput;
use raknet::server::RakServer;
use raknet::session::state::RakSessionState;
use raknet::session::{
    RakSession, RakSessionError, RakSessionId, RakSessionInput, RakSessionOutput,
    DEFAULT_ORDERING_CHANNELS,
};
use raknet::time::{Duration, SystemTime};
use raknet::types::priority::RakPriority;
use raknet::types::reliability::RakReliability;
use raknet::util::{constants, packet_id};

/// A protocol that counts the reliable frames that it sends.
#[derive(Debug, Default)]
struct Protocol {
    outbound_rel: u32,
}

impl Protocol {
    fn handle(&mut self, input: RakSessionInput) -> Result<(), RakSessionError> {
        if let RakSessionInput::Send(_, RakReliability::ReliableOrdered, _, _) = input {
            self.outbound_rel += 1;
        }
        Ok(())
    }
}

type Server = RakServer<Protocol>;

fn localhost(port: u16) -> SocketAddr {
    SocketAddr::V4(SocketAddrV4 { ip: 0x7f00_0001, port })
}

fn now() -> SystemTime {
    let since = std::time::SystemTime::now()
        .duration_since(std::time::UNIX_EPOCH)
        .unwrap();
    SystemTime { nanos: since.as_nanos() as i128 }
}

fn drain(server: &mut Server) -> Vec<RakServerOutput<Protocol>> {
    let mut out = Vec::new();
    while let Some(o) = server.poll() {
        out.push(o);
    }
    out
}

fn first_byte(output: &RakServerOutput<Protocol>) -> Option<u8> {
    match output {
        RakServerOutput::SocketDatagram(buf, _) => buf.first().copied(),
        _ => None,
    }
}

fn request_1(protocol: u8) -> Vec<u8> {
    let mut buf = Vec::new();
    OpenConnectionRequest1 { protocol, mtu: 100 }.serialize(&mut buf);
    buf
}

fn request_2(server_addr: SocketAddr, client: u64) -> Vec<u8> {
    let mut buf = Vec::new();
    OpenConnectionRequest2 {
        cookie: None,
        addr: server_addr,
        mtu: constants::MIN_MTU_SIZE,
        client,
    }
    .serialize(&mut buf);
    buf
}

fn give(server: &mut Server, msg: RakServerInput) -> Result<RakServerStep, RakServerError> {
    assert!(server.admits(&msg));
    server.handle(msg)
}

/// A server with a session for `client_addr` that is to be connected.
fn opened(server_addr: SocketAddr, client_addr: SocketAddr, now: SystemTime) -> Server {
    let mut server: Server = RakServer::new(RakServerConfig::default(), server_addr);
    give(
        &mut server,
        RakServerInput::Datagram(request_1(constants::PROTOCOL), client_addr, now),
    )
    .unwrap();
    drain(&mut server);
    give(
        &mut server,
        RakServerInput::Datagram(request_2(server_addr, 1), client_addr, now),
    )
    .unwrap();
    drain(&mut server);
    server
}

#[test]
fn rate_limits_offline_packets_per_ip() {
    let server_addr = localhost(19132);
    let client_addr = localhost(1);
    let mut server: Server = RakServer::new(
        RakServerConfig { packet_limit: 2, ..Default::default() },
        server_addr,
    );
    let mut buf = Vec::new();
    UnconnectedPing { timestamp: 0, client: 1 }.serialize(&mut buf);

    let now = now();
    for _ in 0..5 {
        give(&mut server, RakServerInput::Datagram(buf.clone(), client_addr, now)).unwrap();
    }

    assert_eq!(drain(&mut server).len(), 2);
}

#[test]
fn already_connected_reply_on_duplicate_request() {
    let server_addr = localhost(19132);
    let client_addr = localhost(1);
    let now = now();
    let mut server = opened(server_addr, client_addr, now);

    give(
        &mut server,
        RakServerInput::Datagram(request_2(server_addr, 1), client_addr, now),
    )
    .unwrap();

    let outputs = drain(&mut server);
    assert!(outputs
        .iter()
        .any(|o| first_byte(o) == Some(packet_id::ALREADY_CONNECTED)));
}

#[test]
fn ip_recently_connected_reply_after_disconnect() {
    let server_addr = localhost(19132);
    let client_addr = localhost(1);
    let now = now();
    let mut server = opened(server_addr, client_addr, now);

    let id = server.session_id(client_addr).unwrap();
    give(&mut server, RakServerInput::RemoveSession(id, now)).unwrap();

    give(
        &mut server,
        RakServerInput::Datagram(request_1(constants::PROTOCOL), client_addr, now),
    )
    .unwrap();

    let outputs = drain(&mut server);
    assert!(outputs
        .iter()
        .any(|o| first_byte(o) == Some(packet_id::IP_RECENTLY_CONNECTED)));
}

#[test]
fn adopted_session_continues_on_a_second_server() {
    let peer_addr = localhost(40000);

    // A session whose sequence state has advanced past its initial values.
    let id_on_a = RakSessionId(7);
    let mut session = RakSession::new(
        id_on_a,
        peer_addr,
        0xDEAD_BEEF,
        constants::MAX_MTU_SIZE,
        DEFAULT_ORDERING_CHANNELS,
    );
    let now = now();
    let mut protocol = Protocol::default();
    protocol
        .handle(RakSessionInput::Send(
            b"hello".to_vec(),
            RakReliability::ReliableOrdered,
            RakPriority::Immediate,
            now,
        ))
        .unwrap();
    let before_seq = protocol.outbound_rel;
    session.protocol = Some(protocol);
    assert!(
        before_seq > 0,
        "sending a reliable frame must advance the sequence counter"
    );

    // A separate instance whose id counter is already past server A's, so reusing
    // the incoming id would collide.
    let mut server_b: Server = RakServer::new(RakServerConfig::default(), localhost(19161));
    for i in 0..id_on_a.0 + 100 {
        server_b.adopt(RakSession::new(
            RakSessionId(0),
            localhost(1000 + i as u16),
            i,
            constants::MAX_MTU_SIZE,
            DEFAULT_ORDERING_CHANNELS,
        ));
    }
    drain(&mut server_b);

    server_b.adopt(session);

    let outputs = drain(&mut server_b);
    let adopted = outputs.into_iter().find_map(|o| match o {
        RakServerOutput::SessionConnected(session) => Some(*session),
        _ => None,
    });
    let adopted = adopted.expect("adopt must emit SessionConnected");

    assert_eq!(
        adopted.protocol.as_ref().unwrap().outbound_rel,
        before_seq,
        "sequence state must carry over unchanged"
    );
    assert_ne!(
        adopted.id, id_on_a,
        "a colliding id from another server must not be reused as-is"
    );
    assert_eq!(
        server_b.session_id(peer_addr).unwrap(),
        adopted.id,
        "future datagrams from the peer must route to the adopted session's new id"
    );
    assert_eq!(adopted.id, RakSessionId(107));
    assert_eq!(adopted.guid, 0xDEAD_BEEF);

    give(
        &mut server_b,
        RakServerInput::Datagram(b"\xffnoise".to_vec(), peer_addr, now),
    )
    .unwrap();
    let routed = drain(&mut server_b);
    assert!(
        routed
            .iter()
            .any(|o| matches!(o, RakServerOutput::SessionDatagram(_, id) if *id == adopted.id)),
        "a datagram from the adopted session's peer must be routed by its new id"
    );
}

#[test]
fn evicts_stale_pending_connection() {
    let server_addr = localhost(19132);
    let client_addr = localhost(1);
    let now = now();
    let mut server = opened(server_addr, client_addr, now);

    assert!(server.pending(client_addr).is_some());

    let later = now.after(Duration { nanos: PENDING_CONNECTION_TIMEOUT });
    give(&mut server, RakServerInput::Update(later)).unwrap();

    assert!(server.pending(client_addr).is_none());
    assert!(server.session_id(client_addr).is_none());
}

#[test]
fn young_pending_connection_is_kept() {
    let now = now();
    let mut server = opened(localhost(19132), localhost(1), now);
    let later = now.after(Duration { nanos: PENDING_CONNECTION_TIMEOUT - 1 });
    give(&mut server, RakServerInput::Update(later)).unwrap();
    assert!(server.pending(localhost(1)).is_some());
    assert_eq!(server.session_id(localhost(1)), Some(RakSessionId(0)));
}

#[test]
fn cooldown_ends_after_five_seconds() {
    let now = now();
    for (millis, answer) in [
        (4_999, packet_id::IP_RECENTLY_CONNECTED),
        (5_000, packet_id::OPEN_CONNECTION_REPLY_1),
    ] {
        let mut server = opened(localhost(19132), localhost(1), now);
        give(&mut server, RakServerInput::RemoveSession(RakSessionId(0), now)).unwrap();
        assert!(server.session_id(localhost(1)).is_none());
        assert!(server.pending(localhost(1)).is_none());
        let later = now.after(Duration::from_millis(millis));
        give(
            &mut server,
            RakServerInput::Datagram(request_1(constants::PROTOCOL), localhost(1), later),
        )
        .unwrap();
        let outputs = drain(&mut server);
        assert_eq!(outputs.len(), 1);
        assert_eq!(first_byte(&outputs[0]), Some(answer));
        if let RakServerOutput::SocketDatagram(buf, _) = &outputs[0] {
            if answer == packet_id::IP_RECENTLY_CONNECTED {
                assert_eq!(
                    IpRecentlyConnected::deserialize(buf),
                    Ok(IpRecentlyConnected { guid: 0 })
                );
            }
        }
    }
}

#[test]
fn limit_for_all_addresses_holds() {
    let mut server: Server = RakServer::new(
        RakServerConfig { total_packet_limit: 3, ..Default::default() },
        localhost(19132),
    );
    let mut buf = Vec::new();
    UnconnectedPing { timestamp: 0, client: 1 }.serialize(&mut buf);
    let now = now();
    for port in 1..6 {
        give(&mut server, RakServerInput::Datagram(buf.clone(), localhost(port), now)).unwrap();
    }
    assert_eq!(drain(&mut server).len(), 3);

    // A second later all are counted anew.
    let later = now.after(Duration::from_secs(1));
    give(&mut server, RakServerInput::Datagram(buf.clone(), localhost(1), later)).unwrap();
    assert_eq!(drain(&mut server).len(), 1);
}

#[test]
fn counting_goes_on_within_the_second() {
    let mut server: Server = RakServer::new(
        RakServerConfig { packet_limit: 1, ..Default::default() },
        localhost(19132),
    );
    let mut buf = Vec::new();
    UnconnectedPing { timestamp: 0, client: 1 }.serialize(&mut buf);
    let now = now();
    give(&mut server, RakServerInput::Datagram(buf.clone(), localhost(1), now)).unwrap();
    let later = now.after(Duration::from_millis(999));
    give(&mut server, RakServerInput::Datagram(buf.clone(), localhost(1), later)).unwrap();
    assert_eq!(drain(&mut server).len(), 1);
    give(&mut server, RakServerInput::Datagram(buf, localhost(2), later)).unwrap();
    assert_eq!(drain(&mut server).len(), 1);
}

#[test]
fn ping_is_echoed_with_the_message() {
    let mut server: Server = RakServer::new(
        RakServerConfig { guid: 9, ..Default::default() },
        localhost(19132),
    );
    give(&mut server, RakServerInput::SetMessage(b"my server message".to_vec())).unwrap();
    let mut buf = Vec::new();
    UnconnectedPing { timestamp: 77, client: 1 }.serialize(&mut buf);
    give(&mut server, RakServerInput::Datagram(buf, localhost(1), now())).unwrap();
    match server.poll() {
        Some(RakServerOutput::SocketDatagram(buf, addr)) => {
            assert_eq!(addr, localhost(1));
            let pong = UnconnectedPong::deserialize(&buf).unwrap();
            assert_eq!(pong.timestamp, 77);
            assert_eq!(pong.guid, 9);
            assert_eq!(pong.message, b"my server message".to_vec());
        }
        _ => panic!("no pong"),
    }
    assert!(server.poll().is_none());
}

#[test]
fn message_too_long_to_tell_is_an_error() {
    let mut server: Server = RakServer::new(RakServerConfig::default(), localhost(19132));
    give(&mut server, RakServerInput::SetMessage(vec![0; 0x1_0000])).unwrap();
    let mut buf = Vec::new();
    UnconnectedPing { timestamp: 77, client: 1 }.serialize(&mut buf);
    let r = give(&mut server, RakServerInput::Datagram(buf, localhost(1), now()));
    assert!(matches!(r, Err(RakServerError::Codec(RakCodecError::TooLong))));
    assert!(server.poll().is_none());
}

#[test]
fn another_version_is_refused() {
    let mut server: Server = RakServer::new(RakServerConfig::default(), localhost(19132));
    give(
        &mut server,
        RakServerInput::Datagram(request_1(constants::PROTOCOL + 1), localhost(1), now()),
    )
    .unwrap();
    match server.poll() {
        Some(RakServerOutput::SocketDatagram(buf, _)) => assert_eq!(
            IncompatibleProtocol::deserialize(&buf),
            Ok(IncompatibleProtocol { protocol: constants::PROTOCOL, guid: 0 })
        ),
        _ => panic!("no answer"),
    }
}

#[test]
fn agreed_size_is_clamped() {
    for (len, agreed) in [(100, 576), (1000, 1028), (1400, 1400)] {
        let mut server: Server = RakServer::new(RakServerConfig::default(), localhost(19132));
        let mut buf = Vec::new();
        OpenConnectionRequest1 { protocol: constants::PROTOCOL, mtu: len }.serialize(&mut buf);
        assert_eq!(buf.len(), len as usize);
        give(&mut server, RakServerInput::Datagram(buf, localhost(1), now())).unwrap();
        match server.poll() {
            Some(RakServerOutput::SocketDatagram(buf, _)) => assert_eq!(
                OpenConnectionReply1::deserialize(&buf),
                Ok(OpenConnectionReply1 { guid: 0, cookie: None, mtu: agreed })
            ),
            _ => panic!("no answer"),
        }
    }
}

#[test]
fn second_request_opens_a_session() {
    let mut server: Server = RakServer::new(
        RakServerConfig { guid: 5, ..Default::default() },
        localhost(19132),
    );
    give(
        &mut server,
        RakServerInput::Datagram(request_2(localhost(19132), 42), localhost(1), now()),
    )
    .unwrap();
    match server.poll() {
        Some(RakServerOutput::SocketDatagram(buf, addr)) => {
            assert_eq!(addr, localhost(1));
            assert_eq!(
                OpenConnectionReply2::deserialize(&buf),
                Ok(OpenConnectionReply2 {
                    guid: 5,
                    addr: localhost(1),
                    mtu: constants::MIN_MTU_SIZE,
                    security: false,
                })
            );
        }
        _ => panic!("no answer"),
    }
    let session = server.pending(localhost(1)).unwrap();
    assert_eq!(session.id, RakSessionId(0));
    assert_eq!(session.guid, 42);
    assert_eq!(session.mtu, constants::MIN_MTU_SIZE);
    assert_eq!(session.state, RakSessionState::Disconnected);
}

#[test]
fn duplicate_request_is_answered_with_the_guid() {
    let now = now();
    let mut server = opened(localhost(19132), localhost(1), now);
    give(
        &mut server,
        RakServerInput::Datagram(request_2(localhost(19132), 1), localhost(1), now),
    )
    .unwrap();
    match server.poll() {
        Some(RakServerOutput::SocketDatagram(buf, _)) => assert_eq!(
            AlreadyConnected::deserialize(&buf),
            Ok(AlreadyConnected { guid: 0 })
        ),
        _ => panic!("no answer"),
    }
}

#[test]
fn full_server_refuses() {
    let now = now();
    let mut server = opened(localhost(19132), localhost(1), now);
    give(&mut server, RakServerInput::SetMaxConnections(1)).unwrap();
    give(
        &mut server,
        RakServerInput::Datagram(request_2(localhost(19132), 2), localhost(2), now),
    )
    .unwrap();
    match server.poll() {
        Some(RakServerOutput::SocketDatagram(buf, _)) => assert_eq!(
            NoFreeIncomingConnections::deserialize(&buf),
            Ok(NoFreeIncomingConnections { guid: 0 })
        ),
        _ => panic!("no answer"),
    }
    assert!(server.session_id(localhost(2)).is_none());
}

#[test]
fn unfit_requests_are_refused_without_an_answer() {
    let mut server: Server = RakServer::new(RakServerConfig::default(), localhost(19132));
    let r = give(
        &mut server,
        RakServerInput::Datagram(request_2(localhost(19133), 1), localhost(1), now()),
    );
    assert!(matches!(
        r,
        Err(RakServerError::RefusingConnection(text))
            if text == "refusing connection from 127.0.0.1:1 due to port mismatch"
    ));

    for mtu in [constants::MIN_MTU_SIZE - 1, constants::MAX_MTU_SIZE + 1] {
        let mut buf = Vec::new();
        OpenConnectionRequest2 { cookie: None, addr: localhost(19132), mtu, client: 1 }
            .serialize(&mut buf);
        let r = give(&mut server, RakServerInput::Datagram(buf, localhost(1), now()));
        assert!(matches!(
            r,
            Err(RakServerError::RefusingConnection(text))
                if text == "refusing connection from 127.0.0.1:1 due to invalid mtu size"
        ));
    }
    assert!(server.poll().is_none());
    assert!(server.session_id(localhost(1)).is_none());
}

#[test]
fn unreadable_packets_are_errors() {
    let mut server: Server = RakServer::new(RakServerConfig::default(), localhost(19132));
    let r = give(
        &mut server,
        RakServerInput::Datagram(vec![packet_id::UNCONNECTED_PING], localhost(1), now()),
    );
    assert!(matches!(r, Err(RakServerError::Codec(RakCodecError::UnexpectedEnd))));
    let mut buf = request_1(constants::PROTOCOL);
    buf[1] ^= 1;
    let r = give(&mut server, RakServerInput::Datagram(buf, localhost(1), now()));
    assert!(matches!(r, Err(RakServerError::Codec(RakCodecError::InvalidMagic))));
    let mut buf = request_2(localhost(19132), 1);
    buf[17] = 5;
    let r = give(&mut server, RakServerInput::Datagram(buf, localhost(1), now()));
    assert!(matches!(r, Err(RakServerError::Codec(RakCodecError::InvalidAddress))));
    assert!(server.poll().is_none());
}

#[test]
fn empty_and_unknown_datagrams_are_ignored() {
    let mut server: Server = RakServer::new(RakServerConfig::default(), localhost(19132));
    for buf in [vec![], vec![0x00], vec![0x7f, 1, 2], vec![0x80, 1, 2]] {
        let r = give(&mut server, RakServerInput::Datagram(buf, localhost(1), now()));
        assert!(matches!(r, Ok(RakServerStep::Done)));
    }
    assert!(server.poll().is_none());
}

#[test]
fn pending_session_is_connected_through_its_protocol() {
    let now = now();
    let client = localhost(1);
    let mut server = opened(localhost(19132), client, now);

    let r = give(&mut server, RakServerInput::Datagram(vec![0x84, 1], client, now));
    assert!(matches!(
        r,
        Ok(RakServerStep::Handle(addr, RakSessionInput::Datagram(ref buf, _)))
            if addr == client && *buf == vec![0x84, 1]
    ));
    *server.protocol_mut(client).unwrap() = Some(Protocol { outbound_rel: 3 });
    assert!(matches!(
        server.session_handled(client, Ok(())),
        Ok(RakServerStep::Poll(addr)) if addr == client
    ));

    let r = server.session_polled(
        client,
        Some(RakSessionOutput::Datagram(vec![1, 2], client)),
        now,
    );
    assert!(matches!(r, Ok(RakServerStep::Poll(_))));
    assert!(matches!(
        server.poll(),
        Some(RakServerOutput::SocketDatagram(ref buf, _)) if *buf == vec![1, 2]
    ));

    let mut buf = Vec::new();
    ConnectionRequest { security: false, client_timestamp: 8, client_guid: 1 }.serialize(&mut buf);
    let r = server.session_polled(client, Some(RakSessionOutput::Packet(buf)), now);
    match r {
        Ok(RakServerStep::Handle(addr, RakSessionInput::Send(buf, reliability, priority, at))) => {
            assert_eq!(addr, client);
            assert_eq!(buf[0], packet_id::CONNECTION_REQUEST_ACCEPTED);
            assert_eq!(reliability, RakReliability::ReliableOrdered);
            assert_eq!(priority, RakPriority::Immediate);
            assert_eq!(at, now);
        }
        _ => panic!("not accepted"),
    }

    let mut buf = Vec::new();
    NewIncomingConnection {
        server_address: localhost(19132),
        internal_addresses: vec![localhost(0); 10],
        incoming_timestamp: 1,
        server_timestamp: 2,
    }
    .serialize(&mut buf);
    let r = server.session_polled(client, Some(RakSessionOutput::Packet(buf)), now);
    assert!(matches!(r, Ok(RakServerStep::Done)));
    match server.poll() {
        Some(RakServerOutput::SessionConnected(session)) => {
            assert_eq!(session.id, RakSessionId(0));
            assert_eq!(session.state, RakSessionState::Connected);
            assert_eq!(session.protocol.unwrap().outbound_rel, 3);
        }
        _ => panic!("not connected"),
    }
    assert!(server.pending(client).is_none());

    let r = give(&mut server, RakServerInput::Datagram(vec![0x84, 1], client, now));
    assert!(matches!(r, Ok(RakServerStep::Done)));
    assert!(matches!(
        server.poll(),
        Some(RakServerOutput::SessionDatagram(ref buf, id))
            if *buf == vec![0x84, 1] && id == RakSessionId(0)
    ));
}

#[test]
fn failing_protocol_is_an_error() {
    let server = opened(localhost(19132), localhost(1), now());
    let r = server.session_handled(localhost(1), Err(RakSessionError::Closed));
    assert!(matches!(r, Err(RakServerError::Session(RakSessionError::Closed))));
}

#[test]
fn request_before_the_epoch_is_an_error() {
    let client = localhost(1);
    let mut server = opened(localhost(19132), client, now());
    let mut buf = Vec::new();
    ConnectionRequest { security: false, client_timestamp: 8, client_guid: 1 }.serialize(&mut buf);
    let r = server.session_polled(
        client,
        Some(RakSessionOutput::Packet(buf)),
        SystemTime { nanos: -1 },
    );
    assert!(matches!(r, Err(RakServerError::Time)));
    assert!(server.pending(client).is_some());
}

#[test]
fn other_outputs_of_a_pending_session_are_passed_over() {
    let client = localhost(1);
    let mut server = opened(localhost(19132), client, now());
    for output in [
        RakSessionOutput::Wait(Duration::from_millis(1)),
        RakSessionOutput::Packet(vec![]),
        RakSessionOutput::Packet(vec![0xfe]),
    ] {
        let r = server.session_polled(client, Some(output), now());
        assert!(matches!(r, Ok(RakServerStep::Poll(_))));
    }
    assert!(matches!(server.session_polled(client, None, now()), Ok(RakServerStep::Done)));
    assert!(matches!(server.session_polled(localhost(2), None, now()), Ok(RakServerStep::Done)));
    assert!(server.poll().is_none());
}

#[test]
fn limits_that_leave_nothing_between_are_not_admitted() {
    let server: Server = RakServer::new(
        RakServerConfig { min_mtu_size: 1000, max_mtu_size: 900, ..Default::default() },
        localhost(19132),
    );
    let msg = RakServerInput::Datagram(request_1(constants::PROTOCOL), localhost(1), now());
    assert!(!server.admits(&msg));
    let msg = RakServerInput::Datagram(request_1(99), localhost(1), now());
    assert!(server.admits(&msg));
    assert!(server.can_adopt());
}

#[test]
fn removing_a_session_leaves_the_others() {
    let now = now();
    let mut server = opened(localhost(19132), localhost(1), now);
    give(
        &mut server,
        RakServerInput::Datagram(request_2(localhost(19132), 2), localhost(2), now),
    )
    .unwrap();
    let first = server.session_id(localhost(1)).unwrap();
    let second = server.session_id(localhost(2)).unwrap();
    assert_ne!(first, second);
    give(&mut server, RakServerInput::RemoveSession(first, now)).unwrap();
    assert!(server.session_id(localhost(1)).is_none());
    assert_eq!(server.session_id(localhost(2)), Some(second));
    assert!(server.pending(localhost(2)).is_some());

    // Another removal of the same session finds nothing.
    give(&mut server, RakServerInput::RemoveSession(first, now)).unwrap();
    assert_eq!(server.session_id(localhost(2)), Some(second));
}

#[test]
fn exchange_puts_the_session_out_once_and_last() {
    let now = now();
    let client = localhost(1);
    let mut server = opened(localhost(19132), client, now);
    let mut known = Vec::new();
    NewIncomingConnection {
        server_address: localhost(19132),
        internal_addresses: vec![],
        incoming_timestamp: 1,
        server_timestamp: 2,
    }
    .serialize(&mut known);
    let mut steps = Vec::new();
    for output in [
        RakSessionOutput::Datagram(vec![1], client),
        RakSessionOutput::Datagram(vec![2], client),
        RakSessionOutput::Packet(known.clone()),
        RakSessionOutput::Packet(known),
        RakSessionOutput::Datagram(vec![3], client),
    ] {
        steps.push(server.session_polled(client, Some(output), now).unwrap());
    }
    assert!(matches!(steps[1], RakServerStep::Poll(_)));
    assert!(matches!(steps[2], RakServerStep::Done));
    assert!(matches!(steps[4], RakServerStep::Done));
    let outputs = drain(&mut server);
    assert_eq!(outputs.len(), 3);
    match &outputs[2] {
        RakServerOutput::SessionConnected(session) => {
            assert_eq!(server.session_id(client), Some(session.id))
        }
        _ => panic!("not connected"),
    }
}

#[test]
fn last_message_set_is_told() {
    let mut server: Server = RakServer::new(RakServerConfig::default(), localhost(19132));
    give(&mut server, RakServerInput::SetMessage(b"one".to_vec())).unwrap();
    give(&mut server, RakServerInput::SetMessage(b"two".to_vec())).unwrap();
    give(&mut server, RakServerInput::Update(now())).unwrap();
    let mut buf = Vec::new();
    UnconnectedPing { timestamp: 1, client: 1 }.serialize(&mut buf);
    give(&mut server, RakServerInput::Datagram(buf, localhost(1), now())).unwrap();
    match server.poll() {
        Some(RakServerOutput::SocketDatagram(buf, _)) => assert_eq!(
            UnconnectedPong::deserialize(&buf).unwrap().message,
            b"two".to_vec()
        ),
        _ => panic!("no pong"),
    }
}

#[test]
fn agreed_size_can_be_asked_for() {
    let client = localhost(1);
    let mut server: Server = RakServer::new(RakServerConfig::default(), localhost(19132));
    let mut buf = Vec::new();
    OpenConnectionRequest1 { protocol: constants::PROTOCOL, mtu: 20 }.serialize(&mut buf);
    give(&mut server, RakServerInput::Datagram(buf, client, now())).unwrap();
    let mtu = match server.poll() {
        Some(RakServerOutput::SocketDatagram(buf, _)) => {
            OpenConnectionReply1::deserialize(&buf).unwrap().mtu
        }
        _ => panic!("no answer"),
    };
    let mut buf = Vec::new();
    OpenConnectionRequest2 { cookie: None, addr: localhost(19132), mtu, client: 1 }
        .serialize(&mut buf);
    give(&mut server, RakServerInput::Datagram(buf, client, now())).unwrap();
    assert!(server.pending(client).is_some());
}

#[test]
fn same_inputs_have_the_same_outcome() {
    let now = now();
    let mut a = opened(localhost(19132), localhost(1), now);
    let mut b = opened(localhost(19132), localhost(1), now);
    for server in [&mut a, &mut b] {
        give(
            server,
            RakServerInput::Datagram(request_2(localhost(19132), 1), localhost(1), now),
        )
        .unwrap();
    }
    assert_eq!(format!("{:?}", drain(&mut a)), format!("{:?}", drain(&mut b)));
}
