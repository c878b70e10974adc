//! A server as its owner sees it.

pub mod msg;
pub mod rules;
pub mod task;

use crate::net::SocketAddr;
use crate::raknet_tokio::server::msg::RakServerMsg;
use crate::server::config::RakServerConfig;
use crate::session::RakSession;
use vstd::prelude::*;

verus! {

/// How far a server has come.
#[derive(Debug)]
pub enum RakServerState {
    /// It has not been started yet.
    Initialized(SocketAddr, RakServerConfig),
    /// Its task runs.
    Running,
    /// It was stopped.
    Shutdown,
}

/// What a server cannot do.
#[derive(Clone, Copy, Debug, PartialEq, Eq, Structural)]
pub enum RakServerError {
    /// Its task does not run.
    Closed,
}

/// A server as its owner sees it. Its view is how far it has come.
#[derive(Debug)]
pub struct RakServer {
    state: RakServerState,
}

impl View for RakServer {
    type V = RakServerState;

    closed spec fn view(&self) -> RakServerState {
        self.state
    }
}

impl RakServer {
    /// A server that is to be started at `addr`.
    pub fn new(addr: SocketAddr, config: RakServerConfig) -> (server: RakServer)
        ensures
            server@ == RakServerState::Initialized(addr, config),
    {
        RakServer { state: RakServerState::Initialized(addr, config) }
    }

    /// Sets what the server has to say of itself: at once before it is started, and by a
    /// message to its task while that runs.
    pub fn set_message<P>(&mut self, message: Vec<u8>) -> (msg: Option<RakServerMsg<P>>)
        ensures
            match old(self)@ {
                RakServerState::Initialized(addr, config) => final(self)@
                    == RakServerState::Initialized(addr, RakServerConfig { message, ..config })
                    && msg is None,
                RakServerState::Running => final(self)@ is Running && msg == Some(
                    RakServerMsg::<P>::SetMessage(message),
                ),
                RakServerState::Shutdown => final(self)@ is Shutdown && msg is None,
            },
    {
        match &mut self.state {
            RakServerState::Initialized(_, config) => {
                config.message = message;
                None
            },
            RakServerState::Running => Some(RakServerMsg::SetMessage(message)),
            RakServerState::Shutdown => None,
        }
    }

    /// Sets the sessions that the server takes: at once before it is started, and by a message
    /// to its task while that runs.
    pub fn set_max_connections<P>(&mut self, n: usize) -> (msg: Option<RakServerMsg<P>>)
        ensures
            match old(self)@ {
                RakServerState::Initialized(addr, config) => final(self)@
                    == RakServerState::Initialized(
                    addr,
                    RakServerConfig { max_connections: n, ..config },
                ) && msg is None,
                RakServerState::Running => final(self)@ is Running && msg == Some(
                    RakServerMsg::<P>::SetMaxConnections(n),
                ),
                RakServerState::Shutdown => final(self)@ is Shutdown && msg is None,
            },
    {
        match &mut self.state {
            RakServerState::Initialized(_, config) => {
                config.max_connections = n;
                None
            },
            RakServerState::Running => Some(RakServerMsg::SetMaxConnections(n)),
            RakServerState::Shutdown => None,
        }
    }

    /// Where the server is to be started, if it has not been started yet.
    pub fn start(&self) -> (addr: Option<SocketAddr>)
        ensures
            addr == match self@ {
                RakServerState::Initialized(addr, _) => Some(addr),
                _ => None,
            },
    {
        match &self.state {
            RakServerState::Initialized(addr, _) => Some(*addr),
            _ => None,
        }
    }

    /// Marks the server as started, and hands out what its task is to run with.
    pub fn started(&mut self) -> (task: Option<(SocketAddr, RakServerConfig)>)
        ensures
            match old(self)@ {
                RakServerState::Initialized(addr, config) => final(self)@ is Running && task
                    == Some((addr, config)),
                _ => final(self)@ == old(self)@ && task is None,
            },
    {
        let mut state = RakServerState::Running;
        std::mem::swap(&mut state, &mut self.state);
        match state {
            RakServerState::Initialized(addr, config) => Some((addr, config)),
            other => {
                self.state = other;
                None
            },
        }
    }

    /// Stops a server that runs, by a message to its task.
    pub fn stop<P>(&mut self) -> (msg: Option<RakServerMsg<P>>)
        ensures
            match old(self)@ {
                RakServerState::Running => final(self)@ is Shutdown && msg == Some(
                    RakServerMsg::<P>::Stop,
                ),
                _ => final(self)@ == old(self)@ && msg is None,
            },
    {
        match self.state {
            RakServerState::Running => {
                self.state = RakServerState::Shutdown;
                Some(RakServerMsg::Stop)
            },
            _ => None,
        }
    }

    /// Whether the task runs; nothing can be asked of it otherwise.
    pub fn running(&self) -> (r: Result<(), RakServerError>)
        ensures
            r == if self@ is Running {
                Ok::<(), RakServerError>(())
            } else {
                Err::<(), RakServerError>(RakServerError::Closed)
            },
    {
        match &self.state {
            RakServerState::Running => Ok(()),
            _ => Err(RakServerError::Closed),
        }
    }

    /// Hands a session of another server to a server that runs, by a message to its task.
    pub fn adopt<P>(&self, session: RakSession<P>) -> (r: Result<RakServerMsg<P>, RakServerError>)
        ensures
            match r {
                Ok(msg) => self@ is Running && (msg matches RakServerMsg::AdoptSession(out)
                    && *out == session),
                Err(e) => !(self@ is Running) && e == RakServerError::Closed,
            },
    {
        match self.running() {
            Ok(_) => Ok(RakServerMsg::AdoptSession(Box::new(session))),
            Err(e) => Err(e),
        }
    }

    /// What the owner gets who waits for a session, when the task has handed one over, or
    /// ended without.
    pub fn accept<S>(&self, session: Option<S>) -> (r: Result<S, RakServerError>)
        ensures
            r == match session {
                Some(session) => if self@ is Running {
                    Ok::<S, RakServerError>(session)
                } else {
                    Err::<S, RakServerError>(RakServerError::Closed)
                },
                None => Err::<S, RakServerError>(RakServerError::Closed),
            },
    {
        match self.running() {
            Ok(_) => match session {
                Some(session) => Ok(session),
                None => Err(RakServerError::Closed),
            },
            Err(e) => Err(e),
        }
    }
}

} // verus!
