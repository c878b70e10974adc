//! How a server turns a peer away.

use crate::protocol::codec::{
    check_offline, group_lengths, get_u64, offline_fault, parts_stand, put_magic, put_u64, put_u8, u64_at,
    u64_bytes, u64_reads_back, RakCodecError, MAGIC,
};
use crate::util::packet_id;
use vstd::prelude::*;

verus! {

/// The peer speaks a version of the protocol that the server does not.
#[derive(Clone, Copy, Debug, PartialEq, Eq, Structural)]
pub struct IncompatibleProtocol {
    /// The version that the server speaks.
    pub protocol: u8,
    pub guid: u64,
}

impl IncompatibleProtocol {
    /// The bytes of the packet.
    pub open spec fn bytes(self) -> Seq<u8> {
        seq![packet_id::INCOMPATIBLE_PROTOCOL, self.protocol] + MAGIC@ + u64_bytes(self.guid)
    }

    /// What `s` says as this packet.
    pub open spec fn parsed(s: Seq<u8>) -> Result<IncompatibleProtocol, RakCodecError> {
        match offline_fault(s, 26, 2) {
            Some(e) => Err(e),
            None => Ok(IncompatibleProtocol { protocol: s[1], guid: u64_at(s, 18) }),
        }
    }

    /// Writes the packet.
    pub fn serialize(&self, out: &mut Vec<u8>)
        ensures
            final(out)@ == old(out)@ + self.bytes(),
    {
        put_u8(out, packet_id::INCOMPATIBLE_PROTOCOL);
        put_u8(out, self.protocol);
        put_magic(out);
        put_u64(out, self.guid);
        assert(out@ =~= old(out)@ + self.bytes());
    }

    /// Reads the packet.
    pub fn deserialize(buf: &[u8]) -> (r: Result<IncompatibleProtocol, RakCodecError>)
        ensures
            r == Self::parsed(buf@),
    {
        match check_offline(buf, 26, 2) {
            Some(e) => Err(e),
            None => Ok(IncompatibleProtocol { protocol: buf[1], guid: get_u64(buf, 18) }),
        }
    }

    /// The packet is read back as it was written.
    pub proof fn reads_back(self)
        ensures
            Self::parsed(self.bytes()) == Ok::<IncompatibleProtocol, RakCodecError>(self),
    {
        broadcast use group_lengths;

        let s = self.bytes();
        let head = seq![packet_id::INCOMPATIBLE_PROTOCOL, self.protocol];
        let guid = u64_bytes(self.guid);
        assert(s.subrange(0, s.len() as int) =~= head + MAGIC@ + guid);
        parts_stand(s, 0, head + MAGIC@, guid);
        parts_stand(s, 0, head, MAGIC@);
        u64_reads_back(s, 18, self.guid);
    }
}

/// The peer has a connection already.
#[derive(Clone, Copy, Debug, PartialEq, Eq, Structural)]
pub struct AlreadyConnected {
    pub guid: u64,
}

impl AlreadyConnected {
    /// The bytes of the packet.
    pub open spec fn bytes(self) -> Seq<u8> {
        seq![packet_id::ALREADY_CONNECTED] + MAGIC@ + u64_bytes(self.guid)
    }

    /// What `s` says as this packet.
    pub open spec fn parsed(s: Seq<u8>) -> Result<AlreadyConnected, RakCodecError> {
        match offline_fault(s, 25, 1) {
            Some(e) => Err(e),
            None => Ok(AlreadyConnected { guid: u64_at(s, 17) }),
        }
    }

    /// Writes the packet.
    pub fn serialize(&self, out: &mut Vec<u8>)
        ensures
            final(out)@ == old(out)@ + self.bytes(),
    {
        put_u8(out, packet_id::ALREADY_CONNECTED);
        put_magic(out);
        put_u64(out, self.guid);
        assert(out@ =~= old(out)@ + self.bytes());
    }

    /// Reads the packet.
    pub fn deserialize(buf: &[u8]) -> (r: Result<AlreadyConnected, RakCodecError>)
        ensures
            r == Self::parsed(buf@),
    {
        match check_offline(buf, 25, 1) {
            Some(e) => Err(e),
            None => Ok(AlreadyConnected { guid: get_u64(buf, 17) }),
        }
    }

    /// The packet is read back as it was written.
    pub proof fn reads_back(self)
        ensures
            Self::parsed(self.bytes()) == Ok::<AlreadyConnected, RakCodecError>(self),
    {
        broadcast use group_lengths;

        let s = self.bytes();
        let id = seq![packet_id::ALREADY_CONNECTED];
        let guid = u64_bytes(self.guid);
        assert(s.subrange(0, s.len() as int) =~= id + MAGIC@ + guid);
        parts_stand(s, 0, id + MAGIC@, guid);
        parts_stand(s, 0, id, MAGIC@);
        u64_reads_back(s, 17, self.guid);
    }
}

/// The server has as many connections as it takes.
#[derive(Clone, Copy, Debug, PartialEq, Eq, Structural)]
pub struct NoFreeIncomingConnections {
    pub guid: u64,
}

impl NoFreeIncomingConnections {
    /// The bytes of the packet.
    pub open spec fn bytes(self) -> Seq<u8> {
        seq![packet_id::NO_FREE_INCOMING_CONNECTIONS] + MAGIC@ + u64_bytes(self.guid)
    }

    /// What `s` says as this packet.
    pub open spec fn parsed(s: Seq<u8>) -> Result<NoFreeIncomingConnections, RakCodecError> {
        match offline_fault(s, 25, 1) {
            Some(e) => Err(e),
            None => Ok(NoFreeIncomingConnections { guid: u64_at(s, 17) }),
        }
    }

    /// Writes the packet.
    pub fn serialize(&self, out: &mut Vec<u8>)
        ensures
            final(out)@ == old(out)@ + self.bytes(),
    {
        put_u8(out, packet_id::NO_FREE_INCOMING_CONNECTIONS);
        put_magic(out);
        put_u64(out, self.guid);
        assert(out@ =~= old(out)@ + self.bytes());
    }

    /// Reads the packet.
    pub fn deserialize(buf: &[u8]) -> (r: Result<NoFreeIncomingConnections, RakCodecError>)
        ensures
            r == Self::parsed(buf@),
    {
        match check_offline(buf, 25, 1) {
            Some(e) => Err(e),
            None => Ok(NoFreeIncomingConnections { guid: get_u64(buf, 17) }),
        }
    }

    /// The packet is read back as it was written.
    pub proof fn reads_back(self)
        ensures
            Self::parsed(self.bytes()) == Ok::<NoFreeIncomingConnections, RakCodecError>(self),
    {
        broadcast use group_lengths;

        let s = self.bytes();
        let id = seq![packet_id::NO_FREE_INCOMING_CONNECTIONS];
        let guid = u64_bytes(self.guid);
        assert(s.subrange(0, s.len() as int) =~= id + MAGIC@ + guid);
        parts_stand(s, 0, id + MAGIC@, guid);
        parts_stand(s, 0, id, MAGIC@);
        u64_reads_back(s, 17, self.guid);
    }
}

/// The peer lost its last connection a moment ago.
#[derive(Clone, Copy, Debug, PartialEq, Eq, Structural)]
pub struct IpRecentlyConnected {
    pub guid: u64,
}

impl IpRecentlyConnected {
    /// The bytes of the packet.
    pub open spec fn bytes(self) -> Seq<u8> {
        seq![packet_id::IP_RECENTLY_CONNECTED] + MAGIC@ + u64_bytes(self.guid)
    }

    /// What `s` says as this packet.
    pub open spec fn parsed(s: Seq<u8>) -> Result<IpRecentlyConnected, RakCodecError> {
        match offline_fault(s, 25, 1) {
            Some(e) => Err(e),
            None => Ok(IpRecentlyConnected { guid: u64_at(s, 17) }),
        }
    }

    /// Writes the packet.
    pub fn serialize(&self, out: &mut Vec<u8>)
        ensures
            final(out)@ == old(out)@ + self.bytes(),
    {
        put_u8(out, packet_id::IP_RECENTLY_CONNECTED);
        put_magic(out);
        put_u64(out, self.guid);
        assert(out@ =~= old(out)@ + self.bytes());
    }

    /// Reads the packet.
    pub fn deserialize(buf: &[u8]) -> (r: Result<IpRecentlyConnected, RakCodecError>)
        ensures
            r == Self::parsed(buf@),
    {
        match check_offline(buf, 25, 1) {
            Some(e) => Err(e),
            None => Ok(IpRecentlyConnected { guid: get_u64(buf, 17) }),
        }
    }

    /// The packet is read back as it was written.
    pub proof fn reads_back(self)
        ensures
            Self::parsed(self.bytes()) == Ok::<IpRecentlyConnected, RakCodecError>(self),
    {
        broadcast use group_lengths;

        let s = self.bytes();
        let id = seq![packet_id::IP_RECENTLY_CONNECTED];
        let guid = u64_bytes(self.guid);
        assert(s.subrange(0, s.len() as int) =~= id + MAGIC@ + guid);
        parts_stand(s, 0, id + MAGIC@, guid);
        parts_stand(s, 0, id, MAGIC@);
        u64_reads_back(s, 17, self.guid);
    }
}

} // verus!
