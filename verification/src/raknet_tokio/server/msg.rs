//! What the owner of a server tells its task.

use crate::session::RakSession;
use vstd::prelude::*;

verus! {

/// What the owner of a server tells its task.
#[derive(Debug)]
pub enum RakServerMsg<P> {
    SetMessage(Vec<u8>),
    SetMaxConnections(usize),
    Stop,
    /// A session of another server, which is to go on here. Whoever asked is handed the
    /// session, rather than whoever waits for sessions that connect.
    AdoptSession(Box<RakSession<P>>),
}

} // verus!
