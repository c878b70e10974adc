//! The three packets by which the two ends of an open session agree that it is connected.

use crate::net::SocketAddr;
use crate::protocol::codec::{
    addr_at, addr_bytes, addr_reads_back, bool_bytes, get_addr, get_u16, get_u64, group_lengths,
    parts_stand, put_addr, put_bool, put_u16, put_u64, put_u8, stands_at, u16_at, u16_bytes,
    u16_reads_back, u64_at, u64_bytes, u64_reads_back, RakCodecError,
};
use crate::util::packet_id;
use vstd::prelude::*;

verus! {

/// Asks the server to connect the session.
#[derive(Clone, Copy, Debug, PartialEq, Eq, Structural)]
pub struct ConnectionRequest {
    pub security: bool,
    /// When the client sent the request, in milliseconds.
    pub client_timestamp: u64,
    pub client_guid: u64,
}

impl ConnectionRequest {
    /// The bytes of the packet.
    pub open spec fn bytes(self) -> Seq<u8> {
        seq![packet_id::CONNECTION_REQUEST] + u64_bytes(self.client_guid) + u64_bytes(
            self.client_timestamp,
        ) + bool_bytes(self.security)
    }

    /// What `s` says as this packet.
    pub open spec fn parsed(s: Seq<u8>) -> Result<ConnectionRequest, RakCodecError> {
        if s.len() < 18 {
            Err(RakCodecError::UnexpectedEnd)
        } else {
            Ok(
                ConnectionRequest {
                    security: s[17] != 0,
                    client_timestamp: u64_at(s, 9),
                    client_guid: u64_at(s, 1),
                },
            )
        }
    }

    /// Writes the packet.
    pub fn serialize(&self, out: &mut Vec<u8>)
        ensures
            final(out)@ == old(out)@ + self.bytes(),
    {
        put_u8(out, packet_id::CONNECTION_REQUEST);
        put_u64(out, self.client_guid);
        put_u64(out, self.client_timestamp);
        put_bool(out, self.security);
        assert(out@ =~= old(out)@ + self.bytes());
    }

    /// Reads the packet.
    pub fn deserialize(buf: &[u8]) -> (r: Result<ConnectionRequest, RakCodecError>)
        ensures
            r == Self::parsed(buf@),
    {
        if buf.len() < 18 {
            Err(RakCodecError::UnexpectedEnd)
        } else {
            let client_guid: u64 = get_u64(buf, 1);
            let client_timestamp: u64 = get_u64(buf, 9);
            Ok(ConnectionRequest { security: buf[17] != 0, client_timestamp, client_guid })
        }
    }

    /// The packet is read back as it was written.
    pub proof fn reads_back(self)
        ensures
            Self::parsed(self.bytes()) == Ok::<ConnectionRequest, RakCodecError>(self),
    {
        broadcast use group_lengths;

        let s = self.bytes();
        let id = seq![packet_id::CONNECTION_REQUEST];
        let guid = u64_bytes(self.client_guid);
        let timestamp = u64_bytes(self.client_timestamp);
        let flag = bool_bytes(self.security);
        assert(s.subrange(0, s.len() as int) =~= id + guid + timestamp + flag);
        parts_stand(s, 0, id + guid + timestamp, flag);
        parts_stand(s, 0, id + guid, timestamp);
        parts_stand(s, 0, id, guid);
        u64_reads_back(s, 1, self.client_guid);
        u64_reads_back(s, 9, self.client_timestamp);
        assert(s[17] == s.subrange(17, 18)[0]);
    }
}

/// The bytes of addresses one after another.
pub open spec fn addrs_bytes(addrs: Seq<SocketAddr>) -> Seq<u8>
    decreases addrs.len(),
{
    if addrs.len() == 0 {
        seq![]
    } else {
        addr_bytes(addrs[0]) + addrs_bytes(addrs.drop_first())
    }
}

/// The addresses that fill the bytes of `s` from `at` to `end`.
pub open spec fn addrs_between(s: Seq<u8>, at: int, end: int) -> Result<
    Seq<SocketAddr>,
    RakCodecError,
>
    decreases end - at,
{
    if at >= end {
        Ok(seq![])
    } else {
        match addr_at(s, at) {
            Err(e) => Err(e),
            Ok((addr, n)) => if at + n > end {
                Err(RakCodecError::UnexpectedEnd)
            } else {
                match addrs_between(s, at + n, end) {
                    Err(e) => Err(e),
                    Ok(rest) => Ok(seq![addr] + rest),
                }
            },
        }
    }
}

/// Writes addresses one after another.
fn put_addrs(out: &mut Vec<u8>, addrs: &Vec<SocketAddr>)
    ensures
        final(out)@ == old(out)@ + addrs_bytes(addrs@),
{
    let ghost before = out@;
    let mut i: usize = 0;
    assert(addrs@.skip(0) =~= addrs@);
    while i < addrs.len()
        invariant
            i <= addrs@.len(),
            before + addrs_bytes(addrs@) == out@ + addrs_bytes(addrs@.skip(i as int)),
        decreases addrs@.len() - i,
    {
        let ghost rest = addrs@.skip(i as int);
        assert(rest.drop_first() =~= addrs@.skip(i + 1));
        let ghost written = out@;
        put_addr(out, addrs[i]);
        assert(written + addrs_bytes(rest) =~= out@ + addrs_bytes(rest.drop_first()));
        i = i + 1;
    }
    assert(out@ + addrs_bytes(addrs@.skip(i as int)) =~= out@);
}

/// Reads the addresses from `at` to `end`.
fn get_addrs(buf: &[u8], at: usize, end: usize) -> (r: Result<Vec<SocketAddr>, RakCodecError>)
    requires
        at <= end <= buf@.len(),
    ensures
        match r {
            Ok(addrs) => addrs_between(buf@, at as int, end as int) == Ok::<
                Seq<SocketAddr>,
                RakCodecError,
            >(addrs@),
            Err(e) => addrs_between(buf@, at as int, end as int) == Err::<
                Seq<SocketAddr>,
                RakCodecError,
            >(e),
        },
{
    let mut addrs: Vec<SocketAddr> = Vec::new();
    let mut pos: usize = at;
    let ghost whole = addrs_between(buf@, at as int, end as int);
    proof {
        if let Ok(rest) = whole {
            assert(addrs@ + rest =~= rest);
        }
    }
    while pos < end
        invariant
            pos <= end <= buf@.len(),
            whole == addrs_between(buf@, at as int, end as int),
            whole == (match addrs_between(buf@, pos as int, end as int) {
                Err(e) => Err(e),
                Ok(rest) => Ok::<Seq<SocketAddr>, RakCodecError>(addrs@ + rest),
            }),
        decreases end - pos,
    {
        match get_addr(buf, pos) {
            Err(e) => {
                return Err(e);
            },
            Ok((addr, n)) => {
                if end - pos < n {
                    return Err(RakCodecError::UnexpectedEnd);
                }
                let ghost read = addrs@;
                addrs.push(addr);
                proof {
                    if let Ok(rest) = addrs_between(buf@, pos + n, end as int) {
                        assert(read + (seq![addr] + rest) =~= addrs@ + rest);
                    }
                }
                pos = pos + n;
            },
        }
    }
    assert(addrs@ + Seq::<SocketAddr>::empty() =~= addrs@);
    Ok(addrs)
}

/// Addresses are read back from where their bytes stand.
proof fn addrs_read_back(s: Seq<u8>, at: int, addrs: Seq<SocketAddr>)
    requires
        stands_at(s, at, addrs_bytes(addrs)),
    ensures
        addrs_between(s, at, at + addrs_bytes(addrs).len()) == Ok::<Seq<SocketAddr>, RakCodecError>(
            addrs,
        ),
    decreases addrs.len(),
{
    if addrs.len() == 0 {
        assert(addrs =~= seq![]);
    } else {
        broadcast use group_lengths;

        let first = addr_bytes(addrs[0]);
        let rest = addrs.drop_first();
        parts_stand(s, at, first, addrs_bytes(rest));
        addr_reads_back(s, at, addrs[0]);
        addrs_read_back(s, at + first.len(), rest);
        assert(seq![addrs[0]] + rest =~= addrs);
    }
}

/// Tells the client that the session is connected.
#[derive(Debug)]
pub struct ConnectionRequestAccepted {
    pub client_address: SocketAddr,
    pub system_index: u16,
    pub system_addresses: Vec<SocketAddr>,
    /// The timestamp of the request.
    pub request_timestamp: u64,
    /// When the server accepted it, in milliseconds.
    pub timestamp: u64,
}

/// What the packet says.
#[verifier::ext_equal]
pub struct ConnectionRequestAcceptedView {
    pub client_address: SocketAddr,
    pub system_index: u16,
    pub system_addresses: Seq<SocketAddr>,
    pub request_timestamp: u64,
    pub timestamp: u64,
}

impl View for ConnectionRequestAccepted {
    type V = ConnectionRequestAcceptedView;

    open spec fn view(&self) -> ConnectionRequestAcceptedView {
        ConnectionRequestAcceptedView {
            client_address: self.client_address,
            system_index: self.system_index,
            system_addresses: self.system_addresses@,
            request_timestamp: self.request_timestamp,
            timestamp: self.timestamp,
        }
    }
}

impl ConnectionRequestAcceptedView {
    /// The bytes of the packet.
    pub open spec fn bytes(self) -> Seq<u8> {
        seq![packet_id::CONNECTION_REQUEST_ACCEPTED] + addr_bytes(self.client_address) + u16_bytes(
            self.system_index,
        ) + addrs_bytes(self.system_addresses) + u64_bytes(self.request_timestamp) + u64_bytes(
            self.timestamp,
        )
    }

    /// What `s` says as this packet. The addresses take what the timestamps leave.
    pub open spec fn parsed(s: Seq<u8>) -> Result<ConnectionRequestAcceptedView, RakCodecError> {
        match addr_at(s, 1) {
            Err(e) => Err(e),
            Ok((client_address, n)) => if s.len() < n + 19 {
                Err(RakCodecError::UnexpectedEnd)
            } else {
                match addrs_between(s, n + 3, s.len() - 16) {
                    Err(e) => Err(e),
                    Ok(system_addresses) => Ok(
                        ConnectionRequestAcceptedView {
                            client_address,
                            system_index: u16_at(s, n + 1),
                            system_addresses,
                            request_timestamp: u64_at(s, s.len() - 16),
                            timestamp: u64_at(s, s.len() - 8),
                        },
                    ),
                }
            },
        }
    }

    /// The packet is read back as it was written.
    pub proof fn reads_back(self)
        ensures
            Self::parsed(self.bytes()) == Ok::<ConnectionRequestAcceptedView, RakCodecError>(self),
    {
        broadcast use group_lengths;

        let s = self.bytes();
        let id = seq![packet_id::CONNECTION_REQUEST_ACCEPTED];
        let client = addr_bytes(self.client_address);
        let index = u16_bytes(self.system_index);
        let addrs = addrs_bytes(self.system_addresses);
        let request = u64_bytes(self.request_timestamp);
        let timestamp = u64_bytes(self.timestamp);
        assert(s.subrange(0, s.len() as int) =~= id + client + index + addrs + request + timestamp);
        parts_stand(s, 0, id + client + index + addrs + request, timestamp);
        parts_stand(s, 0, id + client + index + addrs, request);
        parts_stand(s, 0, id + client + index, addrs);
        parts_stand(s, 0, id + client, index);
        parts_stand(s, 0, id, client);
        let n = client.len() as int;
        addr_reads_back(s, 1, self.client_address);
        u16_reads_back(s, n + 1, self.system_index);
        addrs_read_back(s, n + 3, self.system_addresses);
        u64_reads_back(s, s.len() - 16, self.request_timestamp);
        u64_reads_back(s, s.len() - 8, self.timestamp);
    }
}

impl ConnectionRequestAccepted {
    /// Writes the packet.
    pub fn serialize(&self, out: &mut Vec<u8>)
        ensures
            final(out)@ == old(out)@ + self@.bytes(),
    {
        put_u8(out, packet_id::CONNECTION_REQUEST_ACCEPTED);
        put_addr(out, self.client_address);
        put_u16(out, self.system_index);
        put_addrs(out, &self.system_addresses);
        put_u64(out, self.request_timestamp);
        put_u64(out, self.timestamp);
        assert(out@ =~= old(out)@ + self@.bytes());
    }

    /// Reads the packet.
    pub fn deserialize(buf: &[u8]) -> (r: Result<ConnectionRequestAccepted, RakCodecError>)
        ensures
            match r {
                Ok(accepted) => ConnectionRequestAcceptedView::parsed(buf@) == Ok::<
                    ConnectionRequestAcceptedView,
                    RakCodecError,
                >(accepted@),
                Err(e) => ConnectionRequestAcceptedView::parsed(buf@) == Err::<
                    ConnectionRequestAcceptedView,
                    RakCodecError,
                >(e),
            },
    {
        if buf.len() == 0 {
            return Err(RakCodecError::UnexpectedEnd);
        }
        match get_addr(buf, 1) {
            Err(e) => Err(e),
            Ok((client_address, n)) => if buf.len() - n < 19 {
                Err(RakCodecError::UnexpectedEnd)
            } else {
                let end: usize = buf.len() - 16;
                match get_addrs(buf, n + 3, end) {
                    Err(e) => Err(e),
                    Ok(system_addresses) => Ok(
                        ConnectionRequestAccepted {
                            client_address,
                            system_index: get_u16(buf, n + 1),
                            system_addresses,
                            request_timestamp: get_u64(buf, end),
                            timestamp: get_u64(buf, end + 8),
                        },
                    ),
                }
            },
        }
    }
}

/// Tells the server that the client knows of the connection.
#[derive(Debug)]
pub struct NewIncomingConnection {
    pub server_address: SocketAddr,
    pub internal_addresses: Vec<SocketAddr>,
    /// When the server accepted the connection, in milliseconds.
    pub incoming_timestamp: u64,
    /// When the client heard of it, in milliseconds.
    pub server_timestamp: u64,
}

/// What the packet says.
#[verifier::ext_equal]
pub struct NewIncomingConnectionView {
    pub server_address: SocketAddr,
    pub internal_addresses: Seq<SocketAddr>,
    pub incoming_timestamp: u64,
    pub server_timestamp: u64,
}

impl View for NewIncomingConnection {
    type V = NewIncomingConnectionView;

    open spec fn view(&self) -> NewIncomingConnectionView {
        NewIncomingConnectionView {
            server_address: self.server_address,
            internal_addresses: self.internal_addresses@,
            incoming_timestamp: self.incoming_timestamp,
            server_timestamp: self.server_timestamp,
        }
    }
}

impl NewIncomingConnectionView {
    /// The bytes of the packet.
    pub open spec fn bytes(self) -> Seq<u8> {
        seq![packet_id::NEW_INCOMING_CONNECTION] + addr_bytes(self.server_address) + addrs_bytes(
            self.internal_addresses,
        ) + u64_bytes(self.incoming_timestamp) + u64_bytes(self.server_timestamp)
    }

    /// What `s` says as this packet. The addresses take what the timestamps leave.
    pub open spec fn parsed(s: Seq<u8>) -> Result<NewIncomingConnectionView, RakCodecError> {
        match addr_at(s, 1) {
            Err(e) => Err(e),
            Ok((server_address, n)) => if s.len() < n + 17 {
                Err(RakCodecError::UnexpectedEnd)
            } else {
                match addrs_between(s, n + 1, s.len() - 16) {
                    Err(e) => Err(e),
                    Ok(internal_addresses) => Ok(
                        NewIncomingConnectionView {
                            server_address,
                            internal_addresses,
                            incoming_timestamp: u64_at(s, s.len() - 16),
                            server_timestamp: u64_at(s, s.len() - 8),
                        },
                    ),
                }
            },
        }
    }

    /// The packet is read back as it was written.
    pub proof fn reads_back(self)
        ensures
            Self::parsed(self.bytes()) == Ok::<NewIncomingConnectionView, RakCodecError>(self),
    {
        broadcast use group_lengths;

        let s = self.bytes();
        let id = seq![packet_id::NEW_INCOMING_CONNECTION];
        let server = addr_bytes(self.server_address);
        let addrs = addrs_bytes(self.internal_addresses);
        let incoming = u64_bytes(self.incoming_timestamp);
        let timestamp = u64_bytes(self.server_timestamp);
        assert(s.subrange(0, s.len() as int) =~= id + server + addrs + incoming + timestamp);
        parts_stand(s, 0, id + server + addrs + incoming, timestamp);
        parts_stand(s, 0, id + server + addrs, incoming);
        parts_stand(s, 0, id + server, addrs);
        parts_stand(s, 0, id, server);
        let n = server.len() as int;
        addr_reads_back(s, 1, self.server_address);
        addrs_read_back(s, n + 1, self.internal_addresses);
        u64_reads_back(s, s.len() - 16, self.incoming_timestamp);
        u64_reads_back(s, s.len() - 8, self.server_timestamp);
    }
}

impl NewIncomingConnection {
    /// Writes the packet.
    pub fn serialize(&self, out: &mut Vec<u8>)
        ensures
            final(out)@ == old(out)@ + self@.bytes(),
    {
        put_u8(out, packet_id::NEW_INCOMING_CONNECTION);
        put_addr(out, self.server_address);
        put_addrs(out, &self.internal_addresses);
        put_u64(out, self.incoming_timestamp);
        put_u64(out, self.server_timestamp);
        assert(out@ =~= old(out)@ + self@.bytes());
    }

    /// Reads the packet.
    pub fn deserialize(buf: &[u8]) -> (r: Result<NewIncomingConnection, RakCodecError>)
        ensures
            match r {
                Ok(incoming) => NewIncomingConnectionView::parsed(buf@) == Ok::<
                    NewIncomingConnectionView,
                    RakCodecError,
                >(incoming@),
                Err(e) => NewIncomingConnectionView::parsed(buf@) == Err::<
                    NewIncomingConnectionView,
                    RakCodecError,
                >(e),
            },
    {
        if buf.len() == 0 {
            return Err(RakCodecError::UnexpectedEnd);
        }
        match get_addr(buf, 1) {
            Err(e) => Err(e),
            Ok((server_address, n)) => if buf.len() - n < 17 {
                Err(RakCodecError::UnexpectedEnd)
            } else {
                let end: usize = buf.len() - 16;
                match get_addrs(buf, n + 1, end) {
                    Err(e) => Err(e),
                    Ok(internal_addresses) => Ok(
                        NewIncomingConnection {
                            server_address,
                            internal_addresses,
                            incoming_timestamp: get_u64(buf, end),
                            server_timestamp: get_u64(buf, end + 8),
                        },
                    ),
                }
            },
        }
    }
}

} // verus!
