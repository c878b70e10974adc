use raknet::client::config::RakClientConfig;
use raknet::client::input::{RakClientInput, RakClientStep};
use raknet::client::output::RakClientOutput;
use raknet::client::state::RakClientState;
use raknet::client::RakClient;
use raknet::net::{SocketAddr, SocketAddrV4};
use raknet::server::config::RakServerConfig;
use raknet::server::input::{RakServerInput, RakServerStep};
use raknet::server::output::RakServerOutput;
use raknet::server::RakServer;
use raknet::session::state::RakSessionState;
use raknet::session::{RakSessionInput, RakSessionOutput};
use raknet::time::SystemTime;

/// A protocol that loses nothing: a packet is a datagram with one byte before it.
#[derive(Debug)]
struct Protocol {
    peer: SocketAddr,
    outputs: Vec<RakSessionOutput>,
}

impl Protocol {
    fn handle(&mut self, input: RakSessionInput) {
        match input {
            RakSessionInput::Datagram(buf, _) => {
                self.outputs.push(RakSessionOutput::Packet(buf[1..].to_vec()))
            }
            RakSessionInput::Send(buf, _, _, _) => {
                let mut datagram = vec![0x80];
                datagram.extend(buf);
                self.outputs.push(RakSessionOutput::Datagram(datagram, self.peer));
            }
            _ => {}
        }
    }

    fn poll(&mut self) -> Option<RakSessionOutput> {
        if self.outputs.is_empty() {
            None
        } else {
            Some(self.outputs.remove(0))
        }
    }
}

fn localhost(port: u16) -> SocketAddr {
    SocketAddr::V4(SocketAddrV4 { ip: 0x7f00_0001, port })
}

fn give_server(server: &mut RakServer<Protocol>, buf: Vec<u8>, addr: SocketAddr, now: SystemTime) {
    let msg = RakServerInput::Datagram(buf, addr, now);
    assert!(server.admits(&msg));
    let mut step = server.handle(msg).unwrap();
    loop {
        step = match step {
            RakServerStep::Done => return,
            RakServerStep::Handle(addr, input) => {
                server
                    .protocol_mut(addr)
                    .unwrap()
                    .get_or_insert(Protocol { peer: addr, outputs: vec![] })
                    .handle(input);
                server.session_handled(addr, Ok(())).unwrap()
            }
            RakServerStep::Poll(addr) => {
                let output = server.protocol_mut(addr).unwrap().as_mut().unwrap().poll();
                server.session_polled(addr, output, now).unwrap()
            }
        };
    }
}

fn give_client(client: &mut RakClient<Protocol>, msg: RakClientInput) {
    assert!(client.admits(&msg));
    let mut step = client.handle(msg).unwrap();
    loop {
        step = match step {
            RakClientStep::Done => return,
            RakClientStep::Handle(input, exchange) => {
                let peer = client.session().unwrap().addr;
                client
                    .protocol_mut()
                    .unwrap()
                    .get_or_insert(Protocol { peer, outputs: vec![] })
                    .handle(input);
                client.session_handled(exchange, Ok(())).unwrap()
            }
            RakClientStep::Poll(exchange) => {
                let output = client.protocol_mut().unwrap().as_mut().unwrap().poll();
                client.session_polled(exchange, output).unwrap()
            }
        };
    }
}

#[test]
fn client_and_server_connect() {
    let server_addr = localhost(19132);
    let client_addr = localhost(50000);
    let now = SystemTime { nanos: 1_700_000_000_000_000_000 };
    let mut server: RakServer<Protocol> = RakServer::new(
        RakServerConfig { guid: 1, ..Default::default() },
        server_addr,
    );
    let mut client: RakClient<Protocol> = RakClient::new(
        RakClientConfig { guid: 2, ..Default::default() },
        now,
    );

    let mut at_server = None;
    let mut at_client = None;
    give_client(&mut client, RakClientInput::Connect(server_addr, now));
    for _ in 0..10 {
        while let Some(output) = client.poll() {
            match output {
                RakClientOutput::SocketDatagram(buf, addr) => {
                    assert_eq!(addr, server_addr);
                    give_server(&mut server, buf, client_addr, now);
                }
                RakClientOutput::SessionConnected(session) => at_client = Some(*session),
                _ => {}
            }
        }
        while let Some(output) = server.poll() {
            match output {
                RakServerOutput::SocketDatagram(buf, addr) => {
                    assert_eq!(addr, client_addr);
                    give_client(&mut client, RakClientInput::Datagram(buf, server_addr, now));
                }
                RakServerOutput::SessionConnected(session) => at_server = Some(*session),
                _ => {}
            }
        }
    }

    let at_server = at_server.expect("the server must put out the session");
    let at_client = at_client.expect("the client must put out the session");
    assert_eq!(client.state(), RakClientState::HandshakeCompleted(server_addr));
    assert_eq!(at_server.addr, client_addr);
    assert_eq!(at_server.guid, 2);
    assert_eq!(at_server.state, RakSessionState::Connected);
    assert_eq!(at_client.addr, server_addr);
    assert_eq!(at_client.state, RakSessionState::Connected);
    assert_eq!(at_client.mtu, 1400);
    assert_eq!(at_client.mtu, at_server.mtu);
    assert!(server.pending(client_addr).is_none());
    assert_eq!(server.session_id(client_addr), Some(at_server.id));
}

#[test]
fn client_hears_what_the_server_says() {
    let server_addr = localhost(19132);
    let client_addr = localhost(50000);
    let now = SystemTime { nanos: 1_700_000_000_123_456_789 };
    let mut server: RakServer<Protocol> = RakServer::new(
        RakServerConfig { message: b"hello".to_vec(), ..Default::default() },
        server_addr,
    );
    let mut client: RakClient<Protocol> = RakClient::new(RakClientConfig::default(), now);
    give_client(&mut client, RakClientInput::Ping(server_addr, now));
    match client.poll() {
        Some(RakClientOutput::SocketDatagram(buf, _)) => {
            give_server(&mut server, buf, client_addr, now)
        }
        _ => panic!("no ping"),
    }
    match server.poll() {
        Some(RakServerOutput::SocketDatagram(buf, _)) => {
            give_client(&mut client, RakClientInput::Datagram(buf, server_addr, now))
        }
        _ => panic!("no pong"),
    }
    match client.poll() {
        Some(RakClientOutput::Pong(addr, message, sent)) => {
            assert_eq!(addr, server_addr);
            assert_eq!(message, b"hello".to_vec());
            assert_eq!(sent, SystemTime { nanos: 1_700_000_000_123_000_000 });
        }
        _ => panic!("nothing heard"),
    }
}
