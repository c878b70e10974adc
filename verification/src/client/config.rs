//! What a client is told to do.

use crate::time::Duration;
use crate::util::constants;
use vstd::prelude::*;

verus! {

/// What a client is told to do.
#[derive(Clone, Copy, Debug, PartialEq, Eq, Structural)]
pub struct RakClientConfig {
    /// Who the client is.
    pub guid: u64,
    /// The version of the protocol that it speaks.
    pub protocol: u8,
    /// The smallest and the largest datagram size that it tries.
    pub min_mtu_size: u16,
    pub max_mtu_size: u16,
    /// How often it asks a server to connect.
    pub conn_attempt_max: usize,
    /// How long it waits for an answer before it asks again.
    pub conn_attempt_interval: Duration,
    /// How long connecting may take in all.
    pub conn_attempt_timeout: Duration,
}

impl Default for RakClientConfig {
    fn default() -> (config: RakClientConfig)
        ensures
            config.guid == 0,
            config.protocol == constants::PROTOCOL,
            config.min_mtu_size == constants::MIN_MTU_SIZE,
            config.max_mtu_size == constants::MAX_MTU_SIZE,
            config.conn_attempt_max == 10,
            config.conn_attempt_interval@ == 1_000_000_000,
            config.conn_attempt_timeout@ == 10_000_000_000,
    {
        RakClientConfig {
            guid: 0,
            protocol: constants::PROTOCOL,
            min_mtu_size: constants::MIN_MTU_SIZE,
            max_mtu_size: constants::MAX_MTU_SIZE,
            conn_attempt_max: 10,
            conn_attempt_interval: Duration::from_millis(1000),
            conn_attempt_timeout: Duration::from_millis(10_000),
        }
    }
}

} // verus!
