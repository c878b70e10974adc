//! How a server is asked who it is, and how it answers.

use crate::protocol::codec::{
    check_offline, group_lengths, get_u16, get_u64, offline_fault, parts_stand, put_bytes,
    put_magic, put_u16, put_u64, put_u8, u16_at, u16_bytes, u16_reads_back, u64_at, u64_bytes,
    u64_reads_back, RakCodecError, MAGIC,
};
use crate::util::packet_id;
use vstd::prelude::*;

verus! {

/// Asks a server for its message.
#[derive(Clone, Copy, Debug, PartialEq, Eq, Structural)]
pub struct UnconnectedPing {
    /// When the ping was sent, in milliseconds; the pong repeats it.
    pub timestamp: u64,
    /// Who asks.
    pub client: u64,
}

impl UnconnectedPing {
    /// The bytes of the packet.
    pub open spec fn bytes(self) -> Seq<u8> {
        seq![packet_id::UNCONNECTED_PING] + u64_bytes(self.timestamp) + MAGIC@ + u64_bytes(
            self.client,
        )
    }

    /// What `s` says as a ping.
    pub open spec fn parsed(s: Seq<u8>) -> Result<UnconnectedPing, RakCodecError> {
        match offline_fault(s, 33, 9) {
            Some(e) => Err(e),
            None => Ok(UnconnectedPing { timestamp: u64_at(s, 1), client: u64_at(s, 25) }),
        }
    }

    /// Writes the packet.
    pub fn serialize(&self, out: &mut Vec<u8>)
        ensures
            final(out)@ == old(out)@ + self.bytes(),
    {
        put_u8(out, packet_id::UNCONNECTED_PING);
        put_u64(out, self.timestamp);
        put_magic(out);
        put_u64(out, self.client);
        assert(out@ =~= old(out)@ + self.bytes());
    }

    /// Reads the packet.
    pub fn deserialize(buf: &[u8]) -> (r: Result<UnconnectedPing, RakCodecError>)
        ensures
            r == Self::parsed(buf@),
    {
        match check_offline(buf, 33, 9) {
            Some(e) => Err(e),
            None => Ok(UnconnectedPing { timestamp: get_u64(buf, 1), client: get_u64(buf, 25) }),
        }
    }

    /// A ping is read back as it was written.
    pub proof fn reads_back(self)
        ensures
            Self::parsed(self.bytes()) == Ok::<UnconnectedPing, RakCodecError>(self),
    {
        broadcast use group_lengths;

        let s = self.bytes();
        let id = seq![packet_id::UNCONNECTED_PING];
        let timestamp = u64_bytes(self.timestamp);
        let client = u64_bytes(self.client);
        assert(s.subrange(0, s.len() as int) =~= id + timestamp + MAGIC@ + client);
        parts_stand(s, 0, id + timestamp + MAGIC@, client);
        parts_stand(s, 0, id + timestamp, MAGIC@);
        parts_stand(s, 0, id, timestamp);
        u64_reads_back(s, 1, self.timestamp);
        u64_reads_back(s, 25, self.client);
    }
}

/// Tells who a server is.
#[derive(Debug)]
pub struct UnconnectedPong {
    /// The timestamp of the ping.
    pub timestamp: u64,
    /// Who answers.
    pub guid: u64,
    /// What the server has to say of itself.
    pub message: Vec<u8>,
}

/// What a pong says.
#[verifier::ext_equal]
pub struct UnconnectedPongView {
    pub timestamp: u64,
    pub guid: u64,
    pub message: Seq<u8>,
}

impl View for UnconnectedPong {
    type V = UnconnectedPongView;

    open spec fn view(&self) -> UnconnectedPongView {
        UnconnectedPongView {
            timestamp: self.timestamp,
            guid: self.guid,
            message: self.message@,
        }
    }
}

impl UnconnectedPongView {
    /// The bytes of the packet.
    pub open spec fn bytes(self) -> Seq<u8> {
        seq![packet_id::UNCONNECTED_PONG] + u64_bytes(self.timestamp) + u64_bytes(self.guid)
            + MAGIC@ + u16_bytes(self.message.len() as u16) + self.message
    }

    /// What `s` says as a pong.
    pub open spec fn parsed(s: Seq<u8>) -> Result<UnconnectedPongView, RakCodecError> {
        match offline_fault(s, 35, 17) {
            Some(e) => Err(e),
            None => if s.len() < 35 + u16_at(s, 33) {
                Err(RakCodecError::UnexpectedEnd)
            } else {
                Ok(
                    UnconnectedPongView {
                        timestamp: u64_at(s, 1),
                        guid: u64_at(s, 9),
                        message: s.subrange(35, 35 + u16_at(s, 33)),
                    },
                )
            },
        }
    }

    /// A pong is read back as it was written.
    pub proof fn reads_back(self)
        requires
            self.message.len() <= u16::MAX,
        ensures
            Self::parsed(self.bytes()) == Ok::<UnconnectedPongView, RakCodecError>(self),
    {
        broadcast use group_lengths;

        let s = self.bytes();
        let id = seq![packet_id::UNCONNECTED_PONG];
        let timestamp = u64_bytes(self.timestamp);
        let guid = u64_bytes(self.guid);
        let len = u16_bytes(self.message.len() as u16);
        assert(s.subrange(0, s.len() as int) =~= id + timestamp + guid + MAGIC@ + len
            + self.message);
        parts_stand(s, 0, id + timestamp + guid + MAGIC@ + len, self.message);
        parts_stand(s, 0, id + timestamp + guid + MAGIC@, len);
        parts_stand(s, 0, id + timestamp + guid, MAGIC@);
        parts_stand(s, 0, id + timestamp, guid);
        parts_stand(s, 0, id, timestamp);
        u64_reads_back(s, 1, self.timestamp);
        u64_reads_back(s, 9, self.guid);
        u16_reads_back(s, 33, self.message.len() as u16);
    }
}

impl UnconnectedPong {
    /// Writes the packet, unless its message is longer than its length field can tell.
    pub fn serialize(&self, out: &mut Vec<u8>) -> (r: Result<(), RakCodecError>)
        ensures
            match r {
                Ok(_) => self.message@.len() <= u16::MAX && final(out)@ == old(out)@ + self@.bytes(),
                Err(e) => self.message@.len() > u16::MAX && e == RakCodecError::TooLong
                    && final(out)@ == old(out)@,
            },
    {
        if self.message.len() > 0xffff {
            return Err(RakCodecError::TooLong);
        }
        put_u8(out, packet_id::UNCONNECTED_PONG);
        put_u64(out, self.timestamp);
        put_u64(out, self.guid);
        put_magic(out);
        put_u16(out, self.message.len() as u16);
        put_bytes(out, self.message.as_slice());
        assert(out@ =~= old(out)@ + self@.bytes());
        Ok(())
    }

    /// Reads the packet.
    pub fn deserialize(buf: &[u8]) -> (r: Result<UnconnectedPong, RakCodecError>)
        ensures
            match r {
                Ok(pong) => UnconnectedPongView::parsed(buf@) == Ok::<
                    UnconnectedPongView,
                    RakCodecError,
                >(pong@),
                Err(e) => UnconnectedPongView::parsed(buf@) == Err::<
                    UnconnectedPongView,
                    RakCodecError,
                >(e),
            },
    {
        match check_offline(buf, 35, 17) {
            Some(e) => Err(e),
            None => {
                let len: usize = get_u16(buf, 33) as usize;
                if buf.len() - 35 < len {
                    Err(RakCodecError::UnexpectedEnd)
                } else {
                    let mut message: Vec<u8> = Vec::new();
                    put_bytes(&mut message, vstd::slice::slice_subrange(buf, 35, 35 + len));
                    assert(message@ =~= buf@.subrange(35, 35 + len));
                    Ok(UnconnectedPong { timestamp: get_u64(buf, 1), guid: get_u64(buf, 9), message })
                }
            },
        }
    }
}

} // verus!
