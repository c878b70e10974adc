//! The RakNet transport: how a client and a server agree on a session over UDP, and how the
//! datagrams of sessions find their way.
//!
//! Nothing here does input or output. A server and a client are given what was received and
//! the time, and are polled for what is to be sent; what they are and what each input makes of
//! them is told by `server::model` and `client::model`, and what follows from that over several
//! inputs by `server::laws`, `client::laws` and `handshake`, and over an exchange with the protocol
//! of a session by `server::exchange` and `client::exchange`. `raknet_tokio` and `bevy_raknet` hold
//! what a server that runs as a task, and a server and a client that are updated in turns,
//! have to decide.

pub mod bevy_raknet;
pub mod client;
pub mod handshake;
pub mod net;
pub mod protocol;
pub mod raknet_tokio;
pub mod server;
pub mod session;
pub mod time;
pub mod types;
pub mod util;
