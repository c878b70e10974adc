//! What a server is told to do.

use crate::util::constants;
use vstd::prelude::*;

verus! {

/// What a server is told to do.
#[derive(Clone, Debug)]
pub struct RakServerConfig {
    /// Who the server is.
    pub guid: u64,
    /// What the server has to say of itself to whoever asks.
    pub message: Vec<u8>,
    /// The sessions that the server takes by itself.
    pub max_connections: usize,
    /// The versions of the protocol that the server speaks.
    pub protocols: Vec<u8>,
    /// The smallest and the largest datagram size that it agrees to.
    pub min_mtu_size: u16,
    pub max_mtu_size: u16,
    /// The ordering channels of each session.
    pub max_ordering_channels: usize,
    /// The offline packets that it looks at in a second, from one address and in all.
    pub packet_limit: i32,
    pub total_packet_limit: i32,
}

impl Default for RakServerConfig {
    fn default() -> (config: RakServerConfig)
        ensures
            config.guid == 0,
            config.message@ == Seq::<u8>::empty(),
            config.max_connections == 20,
            config.protocols@ == seq![constants::PROTOCOL],
            config.min_mtu_size == constants::MIN_MTU_SIZE,
            config.max_mtu_size == constants::MAX_MTU_SIZE,
            config.max_ordering_channels == crate::session::DEFAULT_ORDERING_CHANNELS,
            config.packet_limit == 120,
            config.total_packet_limit == 100_000,
    {
        let protocols: Vec<u8> = vec![constants::PROTOCOL];
        assert(protocols@ =~= seq![constants::PROTOCOL]);
        RakServerConfig {
            guid: 0,
            message: Vec::new(),
            max_connections: 20,
            protocols,
            min_mtu_size: constants::MIN_MTU_SIZE,
            max_mtu_size: constants::MAX_MTU_SIZE,
            max_ordering_channels: crate::session::DEFAULT_ORDERING_CHANNELS,
            packet_limit: 120,
            total_packet_limit: 100_000,
        }
    }
}

} // verus!
