//! The four packets by which a client and a server agree to open a session.

use crate::net::SocketAddr;
use crate::protocol::codec::{
    addr_at, addr_bytes, addr_reads_back, bool_bytes, check_offline, get_addr, get_i32, get_u16,
    get_u64, group_lengths, i32_at, i32_bits, i32_reads_back, offline_fault, parts_stand, put_addr,
    put_bool, put_i32, put_magic, put_u16, put_u64, put_u8, u16_at, u16_bytes, u16_reads_back,
    u32_bytes, u64_at, u64_bytes, u64_reads_back, RakCodecError, MAGIC,
};
use crate::util::packet_id;
use vstd::prelude::*;

verus! {

/// Asks a server to open a session. The packet is padded to the datagram size that it tries.
#[derive(Clone, Copy, Debug, PartialEq, Eq, Structural)]
pub struct OpenConnectionRequest1 {
    pub protocol: u8,
    /// The size of the whole packet.
    pub mtu: u16,
}

/// The zeros that pad the first request to `mtu` bytes.
pub open spec fn padding(mtu: u16) -> Seq<u8> {
    Seq::new(
        if mtu > 18 {
            (mtu - 18) as nat
        } else {
            0
        },
        |i: int| 0u8,
    )
}

impl OpenConnectionRequest1 {
    /// The bytes of the packet.
    pub open spec fn bytes(self) -> Seq<u8> {
        seq![packet_id::OPEN_CONNECTION_REQUEST_1] + MAGIC@ + seq![self.protocol] + padding(
            self.mtu,
        )
    }

    /// What `s` says as this packet.
    pub open spec fn parsed(s: Seq<u8>) -> Result<OpenConnectionRequest1, RakCodecError> {
        match offline_fault(s, 18, 1) {
            Some(e) => Err(e),
            None => if s.len() > u16::MAX {
                Err(RakCodecError::TooLong)
            } else {
                Ok(OpenConnectionRequest1 { protocol: s[17], mtu: s.len() as u16 })
            },
        }
    }

    /// Writes the packet.
    pub fn serialize(&self, out: &mut Vec<u8>)
        ensures
            final(out)@ == old(out)@ + self.bytes(),
    {
        put_u8(out, packet_id::OPEN_CONNECTION_REQUEST_1);
        put_magic(out);
        put_u8(out, self.protocol);
        let ghost head = out@;
        let mut i: u16 = 18;
        while i < self.mtu
            invariant
                18 <= i,
                i <= self.mtu || i == 18,
                out@ == head + padding(i),
            decreases self.mtu - i,
        {
            out.push(0);
            i = i + 1;
            assert(out@ =~= head + padding(i));
        }
        assert(padding(i) =~= padding(self.mtu));
        assert(out@ =~= old(out)@ + self.bytes());
    }

    /// Reads the packet.
    pub fn deserialize(buf: &[u8]) -> (r: Result<OpenConnectionRequest1, RakCodecError>)
        ensures
            r == Self::parsed(buf@),
    {
        match check_offline(buf, 18, 1) {
            Some(e) => Err(e),
            None => if buf.len() > 0xffff {
                Err(RakCodecError::TooLong)
            } else {
                Ok(OpenConnectionRequest1 { protocol: buf[17], mtu: buf.len() as u16 })
            },
        }
    }

    /// The packet is as long as the datagram size that it tries, and read back as it was
    /// written.
    pub proof fn reads_back(self)
        requires
            self.mtu >= 18,
        ensures
            self.bytes().len() == self.mtu,
            Self::parsed(self.bytes()) == Ok::<OpenConnectionRequest1, RakCodecError>(self),
    {
        let s = self.bytes();
        let id = seq![packet_id::OPEN_CONNECTION_REQUEST_1];
        let protocol = seq![self.protocol];
        assert(s.subrange(0, s.len() as int) =~= id + MAGIC@ + protocol + padding(self.mtu));
        parts_stand(s, 0, id + MAGIC@ + protocol, padding(self.mtu));
        parts_stand(s, 0, id + MAGIC@, protocol);
        parts_stand(s, 0, id, MAGIC@);
        assert(s[17] == s.subrange(17, 18)[0]);
    }
}

/// Agrees to the first request.
#[derive(Clone, Copy, Debug, PartialEq, Eq, Structural)]
pub struct OpenConnectionReply1 {
    pub guid: u64,
    /// What the second request has to repeat, if anything.
    pub cookie: Option<i32>,
    /// The datagram size that the server takes.
    pub mtu: u16,
}

/// The bytes of a cookie, none where there is none.
pub open spec fn cookie_bytes(cookie: Option<i32>) -> Seq<u8> {
    match cookie {
        Some(c) => u32_bytes(i32_bits(c)),
        None => seq![],
    }
}

impl OpenConnectionReply1 {
    /// The bytes of the packet.
    pub open spec fn bytes(self) -> Seq<u8> {
        seq![packet_id::OPEN_CONNECTION_REPLY_1] + MAGIC@ + u64_bytes(self.guid) + bool_bytes(
            self.cookie is Some,
        ) + cookie_bytes(self.cookie) + u16_bytes(self.mtu)
    }

    /// What `s` says as this packet.
    pub open spec fn parsed(s: Seq<u8>) -> Result<OpenConnectionReply1, RakCodecError> {
        match offline_fault(s, 28, 1) {
            Some(e) => Err(e),
            None => if s[25] == 0 {
                Ok(OpenConnectionReply1 { guid: u64_at(s, 17), cookie: None, mtu: u16_at(s, 26) })
            } else if s.len() < 32 {
                Err(RakCodecError::UnexpectedEnd)
            } else {
                Ok(
                    OpenConnectionReply1 {
                        guid: u64_at(s, 17),
                        cookie: Some(i32_at(s, 26)),
                        mtu: u16_at(s, 30),
                    },
                )
            },
        }
    }

    /// Writes the packet.
    pub fn serialize(&self, out: &mut Vec<u8>)
        ensures
            final(out)@ == old(out)@ + self.bytes(),
    {
        put_u8(out, packet_id::OPEN_CONNECTION_REPLY_1);
        put_magic(out);
        put_u64(out, self.guid);
        put_bool(out, self.cookie.is_some());
        if let Some(c) = self.cookie {
            put_i32(out, c);
        }
        put_u16(out, self.mtu);
        assert(out@ =~= old(out)@ + self.bytes());
    }

    /// Reads the packet.
    pub fn deserialize(buf: &[u8]) -> (r: Result<OpenConnectionReply1, RakCodecError>)
        ensures
            r == Self::parsed(buf@),
    {
        match check_offline(buf, 28, 1) {
            Some(e) => Err(e),
            None => {
                let guid: u64 = get_u64(buf, 17);
                if buf[25] == 0 {
                    Ok(OpenConnectionReply1 { guid, cookie: None, mtu: get_u16(buf, 26) })
                } else if buf.len() < 32 {
                    Err(RakCodecError::UnexpectedEnd)
                } else {
                    let cookie = Some(get_i32(buf, 26));
                    Ok(OpenConnectionReply1 { guid, cookie, mtu: get_u16(buf, 30) })
                }
            },
        }
    }

    /// The packet is read back as it was written.
    pub proof fn reads_back(self)
        ensures
            Self::parsed(self.bytes()) == Ok::<OpenConnectionReply1, RakCodecError>(self),
    {
        broadcast use group_lengths;

        let s = self.bytes();
        let id = seq![packet_id::OPEN_CONNECTION_REPLY_1];
        let guid = u64_bytes(self.guid);
        let flag = bool_bytes(self.cookie is Some);
        let cookie = cookie_bytes(self.cookie);
        let mtu = u16_bytes(self.mtu);
        assert(s.subrange(0, s.len() as int) =~= id + MAGIC@ + guid + flag + cookie + mtu);
        parts_stand(s, 0, id + MAGIC@ + guid + flag + cookie, mtu);
        parts_stand(s, 0, id + MAGIC@ + guid + flag, cookie);
        parts_stand(s, 0, id + MAGIC@ + guid, flag);
        parts_stand(s, 0, id + MAGIC@, guid);
        parts_stand(s, 0, id, MAGIC@);
        u64_reads_back(s, 17, self.guid);
        assert(s[25] == s.subrange(25, 26)[0]);
        match self.cookie {
            Some(c) => {
                i32_reads_back(s, 26, c);
                u16_reads_back(s, 30, self.mtu);
            },
            None => {
                u16_reads_back(s, 26, self.mtu);
            },
        }
    }
}

/// Asks the server to open the session as agreed.
#[derive(Clone, Copy, Debug, PartialEq, Eq, Structural)]
pub struct OpenConnectionRequest2 {
    /// What the first reply gave to repeat, if anything.
    pub cookie: Option<i32>,
    /// Where the client reaches the server.
    pub addr: SocketAddr,
    pub mtu: u16,
    /// Who asks.
    pub client: u64,
}

/// Whether a second request repeats a cookie: it is then five bytes longer than without one,
/// and its address stands five bytes further on.
pub open spec fn repeats_cookie(s: Seq<u8>) -> bool {
    (s.len() == 39 && s[22] == 4) || (s.len() == 61 && s[22] == 6)
}

impl OpenConnectionRequest2 {
    /// The bytes of the packet. A cookie is followed by a byte that declines security.
    pub open spec fn bytes(self) -> Seq<u8> {
        seq![packet_id::OPEN_CONNECTION_REQUEST_2] + MAGIC@ + cookie_bytes(self.cookie) + (
        if self.cookie is Some {
            seq![0u8]
        } else {
            seq![]
        }) + addr_bytes(self.addr) + u16_bytes(self.mtu) + u64_bytes(self.client)
    }

    /// What `s` says as this packet.
    pub open spec fn parsed(s: Seq<u8>) -> Result<OpenConnectionRequest2, RakCodecError> {
        match offline_fault(s, 17, 1) {
            Some(e) => Err(e),
            None => {
                let at = if repeats_cookie(s) {
                    22int
                } else {
                    17int
                };
                match addr_at(s, at) {
                    Err(e) => Err(e),
                    Ok((addr, n)) => if s.len() < at + n + 10 {
                        Err(RakCodecError::UnexpectedEnd)
                    } else {
                        Ok(
                            OpenConnectionRequest2 {
                                cookie: if repeats_cookie(s) {
                                    Some(i32_at(s, 17))
                                } else {
                                    None
                                },
                                addr,
                                mtu: u16_at(s, at + n),
                                client: u64_at(s, at + n + 2),
                            },
                        )
                    },
                }
            },
        }
    }

    /// Writes the packet.
    pub fn serialize(&self, out: &mut Vec<u8>)
        ensures
            final(out)@ == old(out)@ + self.bytes(),
    {
        put_u8(out, packet_id::OPEN_CONNECTION_REQUEST_2);
        put_magic(out);
        if let Some(c) = self.cookie {
            put_i32(out, c);
            put_u8(out, 0);
        }
        put_addr(out, self.addr);
        put_u16(out, self.mtu);
        put_u64(out, self.client);
        assert(out@ =~= old(out)@ + self.bytes());
    }

    /// Reads the packet.
    pub fn deserialize(buf: &[u8]) -> (r: Result<OpenConnectionRequest2, RakCodecError>)
        ensures
            r == Self::parsed(buf@),
    {
        match check_offline(buf, 17, 1) {
            Some(e) => Err(e),
            None => {
                let repeats: bool = (buf.len() == 39 && buf[22] == 4) || (buf.len() == 61
                    && buf[22] == 6);
                let at: usize = if repeats {
                    22
                } else {
                    17
                };
                match get_addr(buf, at) {
                    Err(e) => Err(e),
                    Ok((addr, n)) => if buf.len() - at - n < 10 {
                        Err(RakCodecError::UnexpectedEnd)
                    } else {
                        let cookie = if repeats {
                            Some(get_i32(buf, 17))
                        } else {
                            None
                        };
                        let mtu: u16 = get_u16(buf, at + n);
                        let client: u64 = get_u64(buf, at + n + 2);
                        Ok(OpenConnectionRequest2 { cookie, addr, mtu, client })
                    },
                }
            },
        }
    }

    /// The packet is read back as it was written.
    pub proof fn reads_back(self)
        ensures
            Self::parsed(self.bytes()) == Ok::<OpenConnectionRequest2, RakCodecError>(self),
    {
        broadcast use group_lengths;

        let s = self.bytes();
        let id = seq![packet_id::OPEN_CONNECTION_REQUEST_2];
        let cookie = cookie_bytes(self.cookie);
        let flag: Seq<u8> = if self.cookie is Some {
            seq![0u8]
        } else {
            seq![]
        };
        let addr = addr_bytes(self.addr);
        let mtu = u16_bytes(self.mtu);
        let client = u64_bytes(self.client);
        assert(s.subrange(0, s.len() as int) =~= id + MAGIC@ + cookie + flag + addr + mtu + client);
        parts_stand(s, 0, id + MAGIC@ + cookie + flag + addr + mtu, client);
        parts_stand(s, 0, id + MAGIC@ + cookie + flag + addr, mtu);
        parts_stand(s, 0, id + MAGIC@ + cookie + flag, addr);
        parts_stand(s, 0, id + MAGIC@ + cookie, flag);
        parts_stand(s, 0, id + MAGIC@, cookie);
        parts_stand(s, 0, id, MAGIC@);
        let at = (17 + cookie.len() + flag.len()) as int;
        addr_reads_back(s, at, self.addr);
        assert(s[at] == s.subrange(at, at + addr.len())[0]);
        let n = addr.len() as int;
        u16_reads_back(s, at + n, self.mtu);
        u64_reads_back(s, at + n + 2, self.client);
        if let Some(c) = self.cookie {
            i32_reads_back(s, 17, c);
        }
    }
}

/// Agrees to the second request.
#[derive(Clone, Copy, Debug, PartialEq, Eq, Structural)]
pub struct OpenConnectionReply2 {
    pub guid: u64,
    /// Where the server sees the client.
    pub addr: SocketAddr,
    pub mtu: u16,
    /// Whether the session is to be secured.
    pub security: bool,
}

impl OpenConnectionReply2 {
    /// The bytes of the packet.
    pub open spec fn bytes(self) -> Seq<u8> {
        seq![packet_id::OPEN_CONNECTION_REPLY_2] + MAGIC@ + u64_bytes(self.guid) + addr_bytes(
            self.addr,
        ) + u16_bytes(self.mtu) + bool_bytes(self.security)
    }

    /// What `s` says as this packet.
    pub open spec fn parsed(s: Seq<u8>) -> Result<OpenConnectionReply2, RakCodecError> {
        match offline_fault(s, 25, 1) {
            Some(e) => Err(e),
            None => match addr_at(s, 25) {
                Err(e) => Err(e),
                Ok((addr, n)) => if s.len() < 25 + n + 3 {
                    Err(RakCodecError::UnexpectedEnd)
                } else {
                    Ok(
                        OpenConnectionReply2 {
                            guid: u64_at(s, 17),
                            addr,
                            mtu: u16_at(s, 25 + n),
                            security: s[25 + n + 2] != 0,
                        },
                    )
                },
            },
        }
    }

    /// Writes the packet.
    pub fn serialize(&self, out: &mut Vec<u8>)
        ensures
            final(out)@ == old(out)@ + self.bytes(),
    {
        put_u8(out, packet_id::OPEN_CONNECTION_REPLY_2);
        put_magic(out);
        put_u64(out, self.guid);
        put_addr(out, self.addr);
        put_u16(out, self.mtu);
        put_bool(out, self.security);
        assert(out@ =~= old(out)@ + self.bytes());
    }

    /// Reads the packet.
    pub fn deserialize(buf: &[u8]) -> (r: Result<OpenConnectionReply2, RakCodecError>)
        ensures
            r == Self::parsed(buf@),
    {
        match check_offline(buf, 25, 1) {
            Some(e) => Err(e),
            None => match get_addr(buf, 25) {
                Err(e) => Err(e),
                Ok((addr, n)) => if buf.len() - 25 - n < 3 {
                    Err(RakCodecError::UnexpectedEnd)
                } else {
                    let guid: u64 = get_u64(buf, 17);
                    let mtu: u16 = get_u16(buf, 25 + n);
                    let security: bool = buf[25 + n + 2] != 0;
                    Ok(OpenConnectionReply2 { guid, addr, mtu, security })
                },
            },
        }
    }

    /// The packet is read back as it was written.
    pub proof fn reads_back(self)
        ensures
            Self::parsed(self.bytes()) == Ok::<OpenConnectionReply2, RakCodecError>(self),
    {
        broadcast use group_lengths;

        let s = self.bytes();
        let id = seq![packet_id::OPEN_CONNECTION_REPLY_2];
        let guid = u64_bytes(self.guid);
        let addr = addr_bytes(self.addr);
        let mtu = u16_bytes(self.mtu);
        let flag = bool_bytes(self.security);
        assert(s.subrange(0, s.len() as int) =~= id + MAGIC@ + guid + addr + mtu + flag);
        parts_stand(s, 0, id + MAGIC@ + guid + addr + mtu, flag);
        parts_stand(s, 0, id + MAGIC@ + guid + addr, mtu);
        parts_stand(s, 0, id + MAGIC@ + guid, addr);
        parts_stand(s, 0, id + MAGIC@, guid);
        parts_stand(s, 0, id, MAGIC@);
        let n = addr.len() as int;
        u64_reads_back(s, 17, self.guid);
        addr_reads_back(s, 25, self.addr);
        u16_reads_back(s, 25 + n, self.mtu);
        assert(s[25 + n + 2] == s.subrange(25 + n + 2, 25 + n + 3)[0]);
    }
}

} // verus!
