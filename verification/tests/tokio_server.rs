use raknet::net::{SocketAddr, SocketAddrV4};
use raknet::protocol::packets::ping::UnconnectedPing;
use raknet::raknet_tokio::server::msg::RakServerMsg;
use raknet::raknet_tokio::server::task::{
    RakServerTask, RakTaskAction, RakTaskEvent, RakTaskStep,
};
use raknet::raknet_tokio::server::{RakServer, RakServerError};
use raknet::server::config::RakServerConfig;
use raknet::server::input::RakServerStep;
use raknet::session::{
    RakSession, RakSessionId, RakSessionInput, DEFAULT_ORDERING_CHANNELS,
};
use raknet::time::SystemTime;

type Task = RakServerTask<u32, &'static str>;

fn localhost(port: u16) -> SocketAddr {
    SocketAddr::V4(SocketAddrV4 { ip: 0x7f00_0001, port })
}

fn at(secs: u64) -> SystemTime {
    SystemTime { nanos: secs as i128 * 1_000_000_000 }
}

fn session(port: u16) -> RakSession<u32> {
    let mut session = RakSession::new(
        RakSessionId(50),
        localhost(port),
        9,
        1400,
        DEFAULT_ORDERING_CHANNELS,
    );
    session.protocol = Some(3);
    session
}

fn happen(task: &mut Task, event: RakTaskEvent<u32>) -> RakTaskStep<u32> {
    assert!(task.admits(&event));
    task.handle(event)
}

/// A task that runs the session of one peer.
fn running(port: u16) -> Task {
    let mut task: Task = RakServerTask::new(RakServerConfig::default(), localhost(19132));
    let msg = RakServerMsg::AdoptSession(Box::new(session(port)));
    match happen(&mut task, RakTaskEvent::Message(msg, at(100))) {
        RakTaskStep::Adopted(session) => task.spawned(session.id, "handle"),
        _ => panic!("not adopted"),
    }
    task
}

#[test]
fn server_is_started_once_and_stopped_once() {
    let mut server = RakServer::new(localhost(19132), RakServerConfig::default());
    assert!(server.set_message::<u32>(b"hi".to_vec()).is_none());
    assert!(server.set_max_connections::<u32>(3).is_none());
    assert!(server.stop::<u32>().is_none());
    assert_eq!(server.running(), Err(RakServerError::Closed));
    assert!(matches!(server.adopt(session(1)), Err(RakServerError::Closed)));
    assert_eq!(server.accept(Some(1)), Err(RakServerError::Closed));

    assert_eq!(server.start(), Some(localhost(19132)));
    assert_eq!(server.start(), Some(localhost(19132)));
    let (addr, config) = server.started().unwrap();
    assert_eq!(addr, localhost(19132));
    assert_eq!(config.message, b"hi".to_vec());
    assert_eq!(config.max_connections, 3);
    assert_eq!(server.start(), None);
    assert!(server.started().is_none());

    assert!(matches!(
        server.set_message::<u32>(b"ho".to_vec()),
        Some(RakServerMsg::SetMessage(m)) if m == b"ho".to_vec()
    ));
    assert!(matches!(
        server.set_max_connections::<u32>(4),
        Some(RakServerMsg::SetMaxConnections(4))
    ));
    assert_eq!(server.running(), Ok(()));
    match server.adopt(session(1)) {
        Ok(RakServerMsg::AdoptSession(session)) => assert_eq!(session.protocol, Some(3)),
        _ => panic!("not adopted"),
    }
    assert_eq!(server.accept(Some(1)), Ok(1));
    assert_eq!(server.accept::<u8>(None), Err(RakServerError::Closed));

    assert!(matches!(server.stop::<u32>(), Some(RakServerMsg::Stop)));
    assert!(server.stop::<u32>().is_none());
    assert!(server.set_message::<u32>(vec![]).is_none());
    assert!(server.set_max_connections::<u32>(1).is_none());
    assert_eq!(server.start(), None);
    assert_eq!(server.running(), Err(RakServerError::Closed));
}

#[test]
fn adopted_session_is_handed_out_and_reached() {
    let mut task: Task = RakServerTask::new(RakServerConfig::default(), localhost(19132));
    let msg = RakServerMsg::AdoptSession(Box::new(session(7)));
    match happen(&mut task, RakTaskEvent::Message(msg, at(100))) {
        RakTaskStep::Adopted(session) => {
            assert_eq!(session.id, RakSessionId(0));
            assert_eq!(session.protocol, Some(3));
            task.spawned(session.id, "handle");
        }
        _ => panic!("not adopted"),
    }
    assert!(task.poll(at(100)).is_none());
    assert_eq!(task.session(RakSessionId(0)), Some(&"handle"));

    let r = happen(&mut task, RakTaskEvent::Received(vec![0x84, 1], localhost(7), at(101)));
    assert!(matches!(r, RakTaskStep::Serve(Ok(RakServerStep::Done))));
    match task.poll(at(102)) {
        Some(RakTaskAction::Forward(id, RakSessionInput::Datagram(buf, now))) => {
            assert_eq!(id, RakSessionId(0));
            assert_eq!(buf, vec![0x84, 1]);
            assert_eq!(now, at(102));
        }
        _ => panic!("not forwarded"),
    }
    assert!(task.poll(at(102)).is_none());
}

#[test]
fn datagram_for_a_session_that_does_not_run_is_noted() {
    let mut task: Task = RakServerTask::new(RakServerConfig::default(), localhost(19132));
    let msg = RakServerMsg::AdoptSession(Box::new(session(7)));
    happen(&mut task, RakTaskEvent::Message(msg, at(100)));
    happen(&mut task, RakTaskEvent::Received(vec![0x84], localhost(7), at(101)));
    assert!(matches!(
        task.poll(at(101)),
        Some(RakTaskAction::Unknown(id)) if id == RakSessionId(0)
    ));
}

#[test]
fn ended_session_is_forgotten() {
    let mut task = running(7);
    let r = happen(&mut task, RakTaskEvent::Disconnected(RakSessionId(0), at(101)));
    assert!(matches!(r, RakTaskStep::Serve(Ok(RakServerStep::Done))));
    assert_eq!(task.session(RakSessionId(0)), None);
    happen(&mut task, RakTaskEvent::Received(vec![0x84], localhost(7), at(101)));
    assert!(task.poll(at(101)).is_none());
}

#[test]
fn stop_reaches_every_session() {
    let mut task = running(7);
    let msg = RakServerMsg::AdoptSession(Box::new(session(8)));
    match happen(&mut task, RakTaskEvent::Message(msg, at(100))) {
        RakTaskStep::Adopted(session) => task.spawned(session.id, "other"),
        _ => panic!("not adopted"),
    }
    match happen(&mut task, RakTaskEvent::Message(RakServerMsg::Stop, at(102))) {
        RakTaskStep::Stop(mut ids, RakSessionInput::Disconnect(now)) => {
            ids.sort_by_key(|id| id.0);
            assert_eq!(ids, vec![RakSessionId(0), RakSessionId(1)]);
            assert_eq!(now, at(102));
        }
        _ => panic!("not stopped"),
    }
}

#[test]
fn messages_and_datagrams_reach_the_server() {
    let mut task: Task = RakServerTask::new(RakServerConfig::default(), localhost(19132));
    let r = happen(
        &mut task,
        RakTaskEvent::Message(RakServerMsg::SetMessage(b"abc".to_vec()), at(100)),
    );
    assert!(matches!(r, RakTaskStep::Serve(Ok(RakServerStep::Done))));
    happen(
        &mut task,
        RakTaskEvent::Message(RakServerMsg::SetMaxConnections(1), at(100)),
    );
    happen(&mut task, RakTaskEvent::Tick(at(100)));
    let mut ping = Vec::new();
    UnconnectedPing { timestamp: 1, client: 2 }.serialize(&mut ping);
    happen(&mut task, RakTaskEvent::Received(ping, localhost(7), at(100)));
    match task.poll(at(100)) {
        Some(RakTaskAction::SendTo(buf, addr)) => {
            assert_eq!(addr, localhost(7));
            assert_eq!(buf[buf.len() - 3..], *b"abc");
        }
        _ => panic!("no pong"),
    }
    match happen(&mut task, RakTaskEvent::Sending(vec![1], localhost(9))) {
        RakTaskStep::SendTo(buf, addr) => {
            assert_eq!(buf, vec![1]);
            assert_eq!(addr, localhost(9));
        }
        _ => panic!("not sent"),
    }
    let r = happen(&mut task, RakTaskEvent::Received(vec![1], localhost(7), at(100)));
    assert!(matches!(r, RakTaskStep::Serve(Err(_))));
}

#[test]
fn adopted_session_does_not_wait_for_other_outputs() {
    let mut task: Task = RakServerTask::new(RakServerConfig::default(), localhost(19132));
    let mut ping = Vec::new();
    UnconnectedPing { timestamp: 1, client: 2 }.serialize(&mut ping);
    happen(&mut task, RakTaskEvent::Received(ping, localhost(9), at(100)));

    let msg = RakServerMsg::AdoptSession(Box::new(session(7)));
    match happen(&mut task, RakTaskEvent::Message(msg, at(100))) {
        RakTaskStep::Adopted(session) => {
            assert_eq!(session.id, RakSessionId(0));
            assert_eq!(session.addr, localhost(7));
        }
        _ => panic!("not adopted"),
    }
    assert!(matches!(
        task.poll(at(100)),
        Some(RakTaskAction::SendTo(_, addr)) if addr == localhost(9)
    ));
    assert!(task.poll(at(100)).is_none());
}
