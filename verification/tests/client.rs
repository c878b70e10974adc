use raknet::client::config::RakClientConfig;
use raknet::client::error::RakClientError;
use raknet::client::input::{RakClientExchange, RakClientInput, RakClientStep};
use raknet::client::output::RakClientOutput;
use raknet::client::state::RakClientState;
use raknet::client::RakClient;
use raknet::net::{SocketAddr, SocketAddrV4};
use raknet::protocol::codec::RakCodecError;
use raknet::protocol::packets::connection::{ConnectionRequestAccepted, NewIncomingConnection};
use raknet::protocol::packets::open_connection::{
    OpenConnectionReply1, OpenConnectionReply2, OpenConnectionRequest1, OpenConnectionRequest2,
};
use raknet::protocol::packets::ping::{UnconnectedPing, UnconnectedPong};
use raknet::session::state::RakSessionState;
use raknet::session::{RakSessionError, RakSessionId, RakSessionInput, RakSessionOutput};
use raknet::time::{Duration, SystemTime};
use raknet::types::priority::RakPriority;
use raknet::types::reliability::RakReliability;
use raknet::util::{constants, packet_id};

type Client = RakClient<u32>;

fn localhost(port: u16) -> SocketAddr {
    SocketAddr::V4(SocketAddrV4 { ip: 0x7f00_0001, port })
}

fn now() -> SystemTime {
    let since = std::time::SystemTime::now()
        .duration_since(std::time::UNIX_EPOCH)
        .unwrap();
    SystemTime { nanos: since.as_nanos() as i128 }
}

fn give(client: &mut Client, msg: RakClientInput) -> Result<RakClientStep, RakClientError> {
    assert!(client.admits(&msg));
    client.handle(msg)
}

fn last_datagram_len(client: &mut Client) -> u16 {
    let mut len = 0;
    while let Some(RakClientOutput::SocketDatagram(buf, _)) = client.poll() {
        len = buf.len() as u16;
    }
    len
}

fn reply_1(mtu: u16, cookie: Option<i32>) -> Vec<u8> {
    let mut buf = Vec::new();
    OpenConnectionReply1 { guid: 3, cookie, mtu }.serialize(&mut buf);
    buf
}

fn reply_2(mtu: u16, security: bool) -> Vec<u8> {
    let mut buf = Vec::new();
    OpenConnectionReply2 { guid: 3, addr: localhost(1), mtu, security }.serialize(&mut buf);
    buf
}

/// A client whose handshake with `addr` is over.
fn completed(addr: SocketAddr, start: SystemTime) -> Client {
    let mut client: Client = RakClient::new(RakClientConfig::default(), start);
    give(&mut client, RakClientInput::Connect(addr, start)).unwrap();
    give(&mut client, RakClientInput::Datagram(reply_1(1000, None), addr, start)).unwrap();
    give(&mut client, RakClientInput::Datagram(reply_2(1000, false), addr, start)).unwrap();
    while client.poll().is_some() {}
    client
}

#[test]
fn mtu_negotiation_starts_high_and_shrinks() {
    let start = now();
    let mut client: Client = RakClient::new(RakClientConfig::default(), start);
    let addr = localhost(19132);
    let attempt = |client: &mut Client, attempts: u64| {
        let at = start.after(Duration::from_secs(attempts));
        give(client, RakClientInput::Update(at)).unwrap();
        last_datagram_len(client)
    };

    give(&mut client, RakClientInput::Connect(addr, start)).unwrap();
    assert_eq!(last_datagram_len(&mut client), constants::MAX_MTU_SIZE);

    assert_eq!(attempt(&mut client, 1), 1200);
    assert_eq!(attempt(&mut client, 2), constants::MIN_MTU_SIZE);
    for attempts in 3..9 {
        attempt(&mut client, attempts);
    }
    assert_eq!(attempt(&mut client, 9), constants::MIN_MTU_SIZE);
}

#[test]
fn overall_connect_timeout_fails_regardless_of_attempts() {
    let start = now();
    let mut client: Client = RakClient::new(
        RakClientConfig {
            conn_attempt_timeout: Duration::from_millis(100),
            conn_attempt_interval: Duration::from_millis(1000),
            conn_attempt_max: 100,
            ..RakClientConfig::default()
        },
        start,
    );

    let addr = localhost(19132);

    give(&mut client, RakClientInput::Connect(addr, start)).unwrap();

    let result = give(
        &mut client,
        RakClientInput::Update(start.after(Duration::from_millis(200))),
    );

    assert!(matches!(result, Err(RakClientError::ConnectionFailed)));
}

#[test]
fn disconnect_input_allows_reconnect() {
    let addr = localhost(19132);
    let mut client = completed(addr, now());

    give(&mut client, RakClientInput::Connect(addr, now())).unwrap();
    assert!(matches!(client.state(), RakClientState::HandshakeCompleted(_)));

    give(&mut client, RakClientInput::Disconnect).unwrap();
    assert!(matches!(client.state(), RakClientState::Unconnected));

    give(&mut client, RakClientInput::Connect(addr, now())).unwrap();
    assert!(matches!(client.state(), RakClientState::Handshake1(_)));
}

#[test]
fn connecting_asks_at_once_and_waits() {
    let start = now();
    let mut client: Client = RakClient::new(RakClientConfig::default(), start);
    give(&mut client, RakClientInput::Connect(localhost(19132), start)).unwrap();
    match client.poll() {
        Some(RakClientOutput::SocketDatagram(buf, addr)) => {
            assert_eq!(addr, localhost(19132));
            assert_eq!(
                OpenConnectionRequest1::deserialize(&buf),
                Ok(OpenConnectionRequest1 {
                    protocol: constants::PROTOCOL,
                    mtu: constants::MAX_MTU_SIZE,
                })
            );
        }
        _ => panic!("nothing asked"),
    }
    assert!(matches!(
        client.poll(),
        Some(RakClientOutput::Wait(d)) if d == Duration::from_millis(1000)
    ));
    assert!(client.poll().is_none());

    // Nothing is asked before the next attempt is due.
    let later = start.after(Duration::from_millis(400));
    give(&mut client, RakClientInput::Update(later)).unwrap();
    assert!(matches!(
        client.poll(),
        Some(RakClientOutput::Wait(d)) if d == Duration::from_millis(600)
    ));
    assert!(client.poll().is_none());
}

#[test]
fn waits_end_at_the_deadline() {
    let start = now();
    let mut client: Client = RakClient::new(
        RakClientConfig {
            conn_attempt_timeout: Duration::from_millis(100),
            ..RakClientConfig::default()
        },
        start,
    );
    give(&mut client, RakClientInput::Connect(localhost(19132), start)).unwrap();
    client.poll();
    assert!(matches!(
        client.poll(),
        Some(RakClientOutput::Wait(d)) if d == Duration::from_millis(100)
    ));
}

#[test]
fn attempts_are_used_up() {
    let start = now();
    let mut client: Client = RakClient::new(
        RakClientConfig {
            conn_attempt_max: 2,
            conn_attempt_timeout: Duration::from_secs(60),
            ..RakClientConfig::default()
        },
        start,
    );
    give(&mut client, RakClientInput::Connect(localhost(19132), start)).unwrap();
    let second = start.after(Duration::from_secs(1));
    give(&mut client, RakClientInput::Update(second)).unwrap();
    let third = start.after(Duration::from_secs(2));
    let r = give(&mut client, RakClientInput::Update(third));
    assert!(matches!(r, Err(RakClientError::ConnectionFailed)));
}

#[test]
fn unconnected_client_waits_for_an_interval() {
    let mut client: Client = RakClient::new(RakClientConfig::default(), now());
    give(&mut client, RakClientInput::Update(now())).unwrap();
    assert!(matches!(
        client.poll(),
        Some(RakClientOutput::Wait(d)) if d == Duration::from_millis(1000)
    ));
}

#[test]
fn ping_is_sent_and_pong_is_told() {
    let mut client: Client = RakClient::new(
        RakClientConfig { guid: 6, ..RakClientConfig::default() },
        now(),
    );
    let at = SystemTime { nanos: 1_234_567_890 };
    give(&mut client, RakClientInput::Ping(localhost(19132), at)).unwrap();
    match client.poll() {
        Some(RakClientOutput::SocketDatagram(buf, _)) => assert_eq!(
            UnconnectedPing::deserialize(&buf),
            Ok(UnconnectedPing { timestamp: 1234, client: 6 })
        ),
        _ => panic!("no ping"),
    }
    let mut buf = Vec::new();
    let pong = UnconnectedPong { timestamp: 1234, guid: 3, message: b"hi".to_vec() };
    pong.serialize(&mut buf).unwrap();
    give(&mut client, RakClientInput::Datagram(buf, localhost(19132), at)).unwrap();
    match client.poll() {
        Some(RakClientOutput::Pong(addr, message, sent)) => {
            assert_eq!(addr, localhost(19132));
            assert_eq!(message, b"hi".to_vec());
            assert_eq!(sent, SystemTime { nanos: 1_234_000_000 });
        }
        _ => panic!("no pong"),
    }
    assert!(matches!(
        give(&mut client, RakClientInput::Ping(localhost(19132), SystemTime { nanos: -1 })),
        Err(RakClientError::Time)
    ));
    assert!(matches!(
        give(
            &mut client,
            RakClientInput::Datagram(vec![packet_id::UNCONNECTED_PONG], localhost(19132), at)
        ),
        Err(RakClientError::Codec(RakCodecError::UnexpectedEnd))
    ));
}

#[test]
fn connecting_client_does_not_ping() {
    let mut client = completed(localhost(19132), now());
    give(&mut client, RakClientInput::Ping(localhost(19132), now())).unwrap();
    assert!(client.poll().is_none());
}

#[test]
fn refusals_become_errors() {
    let addr = localhost(19132);
    for (id, error) in [
        (packet_id::INCOMPATIBLE_PROTOCOL, RakClientError::IncompatibleProtocol),
        (packet_id::ALREADY_CONNECTED, RakClientError::AlreadyConnected),
        (
            packet_id::NO_FREE_INCOMING_CONNECTIONS,
            RakClientError::NoFreeIncomingConnections,
        ),
        (packet_id::IP_RECENTLY_CONNECTED, RakClientError::RecentlyConnected),
    ] {
        let mut client: Client = RakClient::new(RakClientConfig::default(), now());
        give(&mut client, RakClientInput::Connect(addr, now())).unwrap();
        let r = give(&mut client, RakClientInput::Datagram(vec![id], addr, now()));
        assert_eq!(r.unwrap_err(), error);
        assert_eq!(client.state(), RakClientState::Handshake1(addr));
    }
}

#[test]
fn datagrams_from_elsewhere_are_dropped() {
    let addr = localhost(19132);
    let mut client: Client = RakClient::new(RakClientConfig::default(), now());
    give(&mut client, RakClientInput::Connect(addr, now())).unwrap();
    let r = give(
        &mut client,
        RakClientInput::Datagram(vec![packet_id::ALREADY_CONNECTED], localhost(1), now()),
    );
    assert!(matches!(r, Ok(RakClientStep::Done)));
    let mut client = completed(addr, now());
    let r = give(&mut client, RakClientInput::Datagram(vec![0x84], localhost(1), now()));
    assert!(matches!(r, Ok(RakClientStep::Done)));
    assert!(client.poll().is_none());
}

#[test]
fn empty_and_unknown_answers_are_ignored() {
    let addr = localhost(19132);
    let mut client: Client = RakClient::new(RakClientConfig::default(), now());
    for buf in [vec![], vec![0x77]] {
        let r = give(&mut client, RakClientInput::Datagram(buf, addr, now()));
        assert!(matches!(r, Ok(RakClientStep::Done)));
    }
    give(&mut client, RakClientInput::Connect(addr, now())).unwrap();
    for buf in [vec![], vec![0x77]] {
        let r = give(&mut client, RakClientInput::Datagram(buf, addr, now()));
        assert!(matches!(r, Ok(RakClientStep::Done)));
    }
    assert_eq!(client.state(), RakClientState::Handshake1(addr));
}

#[test]
fn cookie_and_size_are_repeated() {
    let addr = localhost(19132);
    let mut client: Client = RakClient::new(
        RakClientConfig { guid: 6, ..RakClientConfig::default() },
        now(),
    );
    give(&mut client, RakClientInput::Connect(addr, now())).unwrap();
    while client.poll().is_some() {}
    give(&mut client, RakClientInput::Datagram(reply_1(1000, Some(-9)), addr, now())).unwrap();
    assert_eq!(client.state(), RakClientState::Handshake2(addr));
    match client.poll() {
        Some(RakClientOutput::SocketDatagram(buf, _)) => assert_eq!(
            OpenConnectionRequest2::deserialize(&buf),
            Ok(OpenConnectionRequest2 { cookie: Some(-9), addr, mtu: 1000, client: 6 })
        ),
        _ => panic!("nothing asked"),
    }
    // The second request is sent once more when its time has come.
    let later = now().after(Duration::from_secs(2));
    give(&mut client, RakClientInput::Update(later)).unwrap();
    assert!(matches!(
        client.poll(),
        Some(RakClientOutput::SocketDatagram(buf, _))
            if buf[0] == packet_id::OPEN_CONNECTION_REQUEST_2
    ));
}

#[test]
fn secured_server_is_not_connected_to() {
    let addr = localhost(19132);
    let mut client: Client = RakClient::new(RakClientConfig::default(), now());
    give(&mut client, RakClientInput::Connect(addr, now())).unwrap();
    let r = give(&mut client, RakClientInput::Datagram(reply_2(1000, true), addr, now()));
    assert!(matches!(r, Err(RakClientError::SecurityUnsupported)));
    assert_eq!(client.state(), RakClientState::Handshake1(addr));
}

#[test]
fn second_reply_opens_the_session() {
    let addr = localhost(19132);
    let at = SystemTime { nanos: 5_000_000 };
    let mut client: Client = RakClient::new(RakClientConfig::default(), at);
    give(&mut client, RakClientInput::Connect(addr, at)).unwrap();
    let r = give(&mut client, RakClientInput::Datagram(reply_2(900, false), addr, at));
    match r {
        Ok(RakClientStep::Handle(
            RakSessionInput::Send(buf, reliability, priority, now),
            exchange,
        )) => {
            assert_eq!(buf[0], packet_id::CONNECTION_REQUEST);
            assert_eq!(buf[9..17], [0, 0, 0, 0, 0, 0, 0, 5]);
            assert_eq!(reliability, RakReliability::ReliableOrdered);
            assert_eq!(priority, RakPriority::Immediate);
            assert_eq!(now, at);
            assert_eq!(
                exchange,
                RakClientExchange { opening: true, success: None, now: at }
            );
        }
        _ => panic!("no request"),
    }
    let session = client.session().unwrap();
    assert_eq!(session.id, RakSessionId(0));
    assert_eq!(session.mtu, 900);
    assert_eq!(session.state, RakSessionState::Disconnected);
}

#[test]
fn protocol_that_fails_at_once_is_not_kept() {
    let at = now();
    let mut client = completed(localhost(19132), at);
    let exchange = RakClientExchange { opening: true, success: None, now: at };
    let r = client.session_handled(exchange, Err(RakSessionError::Closed));
    assert!(matches!(r, Err(RakClientError::Session(RakSessionError::Closed))));
    assert!(client.session().is_none());
}

#[test]
fn accepted_session_is_put_out() {
    let addr = localhost(19132);
    let at = SystemTime { nanos: 7_000_000 };
    let mut client = completed(addr, at);
    *client.protocol_mut().unwrap() = Some(4);

    let r = give(&mut client, RakClientInput::Datagram(vec![0x84], addr, at));
    let exchange = match r {
        Ok(RakClientStep::Handle(RakSessionInput::Datagram(buf, _), exchange)) => {
            assert_eq!(buf, vec![0x84]);
            exchange
        }
        _ => panic!("not passed on"),
    };
    assert!(matches!(
        client.session_handled(exchange, Ok(())),
        Ok(RakClientStep::Poll(e)) if e == exchange
    ));

    let mut buf = Vec::new();
    ConnectionRequestAccepted {
        client_address: localhost(1),
        system_index: 0,
        system_addresses: vec![],
        request_timestamp: 5,
        timestamp: 6,
    }
    .serialize(&mut buf);
    let exchange = match client.session_polled(exchange, Some(RakSessionOutput::Packet(buf))) {
        Ok(RakClientStep::Handle(RakSessionInput::Send(buf, _, _, _), exchange)) => {
            let incoming = NewIncomingConnection::deserialize(&buf).unwrap();
            assert_eq!(incoming.server_address, addr);
            assert_eq!(incoming.internal_addresses.len(), 10);
            assert_eq!(incoming.incoming_timestamp, 6);
            assert_eq!(incoming.server_timestamp, 7);
            exchange
        }
        _ => panic!("not answered"),
    };
    assert_eq!(exchange.success, Some(true));
    assert!(matches!(
        client.session_polled(exchange, Some(RakSessionOutput::Datagram(vec![9], addr))),
        Ok(RakClientStep::Poll(_))
    ));
    assert!(matches!(client.session_polled(exchange, None), Ok(RakClientStep::Done)));
    assert!(matches!(
        client.poll(),
        Some(RakClientOutput::SocketDatagram(buf, _)) if buf == vec![9]
    ));
    match client.poll() {
        Some(RakClientOutput::SessionConnected(session)) => {
            assert_eq!(session.state, RakSessionState::Connected);
            assert_eq!(session.protocol, Some(4));
        }
        _ => panic!("not connected"),
    }
    assert!(client.session().is_none());

    give(&mut client, RakClientInput::Datagram(vec![0x84, 1], addr, at)).unwrap();
    assert!(matches!(
        client.poll(),
        Some(RakClientOutput::SessionDatagram(buf)) if buf == vec![0x84, 1]
    ));
}

#[test]
fn failed_attempt_ends_the_session() {
    let addr = localhost(19132);
    let at = now();
    let mut client = completed(addr, at);
    let exchange = RakClientExchange { opening: false, success: None, now: at };
    let exchange = match client.session_polled(
        exchange,
        Some(RakSessionOutput::Packet(vec![packet_id::CONNECTION_ATTEMPT_FAILED])),
    ) {
        Ok(RakClientStep::Handle(RakSessionInput::Disconnect(_), exchange)) => exchange,
        _ => panic!("not ended"),
    };
    assert!(matches!(
        client.session_polled(exchange, None),
        Err(RakClientError::ConnectionAttemptFailed)
    ));
    assert!(client.session().is_none());
    assert!(client.poll().is_none());
}

#[test]
fn time_that_cannot_be_told_is_not_admitted() {
    let client: Client = RakClient::new(RakClientConfig::default(), now());
    let end = SystemTime { nanos: i128::MAX };
    assert!(!client.admits(&RakClientInput::Connect(localhost(1), end)));
    assert!(client.admits(&RakClientInput::Update(end)));
    let client: Client = RakClient::new(
        RakClientConfig { min_mtu_size: 900, max_mtu_size: 800, ..RakClientConfig::default() },
        now(),
    );
    assert!(!client.admits(&RakClientInput::Connect(localhost(1), now())));
}

#[test]
fn last_word_of_the_server_counts() {
    let addr = localhost(19132);
    let at = now();
    let mut accepted = Vec::new();
    ConnectionRequestAccepted {
        client_address: localhost(1),
        system_index: 0,
        system_addresses: vec![],
        request_timestamp: 5,
        timestamp: 6,
    }
    .serialize(&mut accepted);
    let failed = vec![packet_id::CONNECTION_ATTEMPT_FAILED];
    for (words, connected) in [
        ([failed.clone(), accepted.clone()], true),
        ([accepted.clone(), accepted.clone()], true),
        ([accepted.clone(), failed.clone()], false),
    ] {
        let mut client = completed(addr, at);
        let mut exchange = RakClientExchange { opening: false, success: None, now: at };
        for word in words {
            match client.session_polled(exchange, Some(RakSessionOutput::Packet(word))) {
                Ok(RakClientStep::Handle(_, next)) => exchange = next,
                _ => panic!("word not heard"),
            }
            client.session_handled(exchange, Ok(())).unwrap();
            client
                .session_polled(exchange, Some(RakSessionOutput::Datagram(vec![1], addr)))
                .unwrap();
        }
        assert_eq!(client.session_polled(exchange, None).is_ok(), connected);
        for _ in 0..2 {
            assert!(matches!(client.poll(), Some(RakClientOutput::SocketDatagram(_, _))));
        }
        assert_eq!(
            matches!(client.poll(), Some(RakClientOutput::SessionConnected(_))),
            connected
        );
        assert!(client.poll().is_none());
    }
}

#[test]
fn nothing_is_sent_once_the_handshake_is_over() {
    let start = now();
    let mut client = completed(localhost(19132), start);
    let later = start.after(Duration::from_secs(3));
    give(&mut client, RakClientInput::Update(later)).unwrap();
    assert!(matches!(
        client.poll(),
        Some(RakClientOutput::Wait(d)) if d == Duration::from_millis(0)
    ));
    assert!(client.poll().is_none());
}
