//! What packets are on the wire, byte by byte.

use crate::net::{SocketAddr, SocketAddrV4, SocketAddrV6};
use crate::protocol::codec::{
    addr_at, addr_bytes, i32_at, i32_bits, u128_at, u128_bytes, u16_at, u16_bytes,
    u32_at, u32_bytes, u64_at, u64_bytes, RakCodecError, MAGIC,
};
use crate::protocol::packets::connection::{
    addrs_between, addrs_bytes, ConnectionRequest, ConnectionRequestAccepted,
    ConnectionRequestAcceptedView, NewIncomingConnection, NewIncomingConnectionView,
};
use crate::protocol::packets::open_connection::{
    OpenConnectionReply1, OpenConnectionReply2, OpenConnectionRequest1, OpenConnectionRequest2,
};
use crate::protocol::packets::ping::{UnconnectedPing, UnconnectedPong, UnconnectedPongView};
use crate::protocol::packets::refusal::{
    AlreadyConnected, IncompatibleProtocol, IpRecentlyConnected, NoFreeIncomingConnections,
};
use vstd::prelude::*;

verus! {

/// The bytes that mark a packet outside of a session.
pub open spec fn marks() -> Seq<u8> {
    seq![
        0x00u8, 0xffu8, 0xffu8, 0x00u8, 0xfeu8, 0xfeu8, 0xfeu8, 0xfeu8,
        0xfdu8, 0xfdu8, 0xfdu8, 0xfdu8, 0x12u8, 0x34u8, 0x56u8, 0x78u8,
    ]
}

/// Packets outside of a session are marked.
pub proof fn packets_are_marked()
    ensures
        MAGIC@ == marks(),
{
    assert(MAGIC@ =~= marks());
}

/// Numbers are written with their highest byte first.
pub proof fn highest_bytes_come_first(a: u16, b: u32, c: u64, d: u128)
    ensures
        u16_bytes(a) == seq![(a / 0x100) as u8, (a % 0x100) as u8],
        u32_bytes(b) == u16_bytes((b / 0x1_0000) as u16) + u16_bytes((b % 0x1_0000) as u16),
        u64_bytes(c) == u32_bytes((c / 0x1_0000_0000) as u32) + u32_bytes(
            (c % 0x1_0000_0000) as u32,
        ),
        u128_bytes(d) == u64_bytes((d / 0x1_0000_0000_0000_0000) as u64) + u64_bytes(
            (d % 0x1_0000_0000_0000_0000) as u64,
        ),
{
    reveal(u16_bytes);
    reveal(u32_bytes);
    reveal(u64_bytes);
    reveal(u128_bytes);
}

/// And read so.
pub proof fn highest_bytes_are_read_first(s: Seq<u8>, at: int)
    ensures
        u16_at(s, at) == s[at] * 0x100 + s[at + 1],
        u32_at(s, at) == u16_at(s, at) * 0x1_0000 + u16_at(s, at + 2),
        u64_at(s, at) == u32_at(s, at) * 0x1_0000_0000 + u32_at(s, at + 4),
        u128_at(s, at) == u64_at(s, at) * 0x1_0000_0000_0000_0000 + u64_at(s, at + 8),
        u32_at(s, at) < 0x8000_0000 ==> i32_at(s, at) == u32_at(s, at),
        u32_at(s, at) >= 0x8000_0000 ==> i32_at(s, at) == u32_at(s, at) - 0x1_0000_0000,
{
    reveal(u16_at);
    reveal(u32_at);
    reveal(u64_at);
    reveal(u128_at);
}

/// An address is written with its version first, an IPv4 address with every bit turned over.
pub proof fn addresses_are_written(v4: SocketAddrV4, v6: SocketAddrV6)
    ensures
        addr_bytes(SocketAddr::V4(v4)) == seq![4u8] + u32_bytes((0xffff_ffff - v4.ip) as u32)
            + u16_bytes(v4.port),
        addr_bytes(SocketAddr::V6(v6)) == seq![6u8, 0x17u8, 0u8] + u16_bytes(v6.port) + u32_bytes(
            v6.flowinfo,
        ) + u128_bytes(v6.ip) + u32_bytes(v6.scope_id),
{
}

/// And read by its version, which is 4 or 6, if all of its bytes are there.
pub proof fn addresses_are_read(s: Seq<u8>, at: int)
    ensures
        at >= s.len() ==> addr_at(s, at) == Err::<(SocketAddr, int), RakCodecError>(
            RakCodecError::UnexpectedEnd,
        ),
        at < s.len() && s[at] != 4 && s[at] != 6 ==> addr_at(s, at) == Err::<
            (SocketAddr, int),
            RakCodecError,
        >(RakCodecError::InvalidAddress),
        at < s.len() && s[at] == 4 && s.len() - at < 7 || at < s.len() && s[at] == 6 && s.len() - at
            < 29 ==> addr_at(s, at) == Err::<(SocketAddr, int), RakCodecError>(
            RakCodecError::UnexpectedEnd,
        ),
        at < s.len() && s[at] == 4 && s.len() - at >= 7 ==> (addr_at(s, at)
            matches Ok((SocketAddr::V4(v4), n)) && n == 7 && v4.ip == 0xffff_ffff - u32_at(
            s,
            at + 1,
        ) && v4.port == u16_at(s, at + 5)),
        at < s.len() && s[at] == 6 && s.len() - at >= 29 ==> (addr_at(s, at)
            matches Ok((SocketAddr::V6(v6), n)) && n == 29 && v6.port == u16_at(s, at + 3)
            && v6.flowinfo == u32_at(s, at + 5) && v6.ip == u128_at(s, at + 9) && v6.scope_id
            == u32_at(s, at + 25)),
{
}

/// Addresses are written one after the other.
pub proof fn addresses_follow_each_other(addrs: Seq<SocketAddr>)
    ensures
        addrs.len() == 0 ==> addrs_bytes(addrs).len() == 0,
        addrs.len() > 0 ==> addrs_bytes(addrs) == addr_bytes(addrs[0]) + addrs_bytes(
            addrs.drop_first(),
        ),
{
}

/// The packets outside of a session, as they are written.
pub proof fn offline_packets_are_written(
    ping: UnconnectedPing,
    pong: UnconnectedPongView,
    request_1: OpenConnectionRequest1,
    reply_1: OpenConnectionReply1,
    request_2: OpenConnectionRequest2,
    reply_2: OpenConnectionReply2,
    incompatible: IncompatibleProtocol,
    guid: u64,
)
    ensures
        ping.bytes() == seq![0x01u8] + u64_bytes(ping.timestamp) + marks() + u64_bytes(ping.client),
        pong.bytes() == seq![0x1cu8] + u64_bytes(pong.timestamp) + u64_bytes(pong.guid) + marks()
            + u16_bytes(pong.message.len() as u16) + pong.message,
        request_1.mtu >= 18 ==> request_1.bytes().len() == request_1.mtu,
        request_1.mtu < 18 ==> request_1.bytes().len() == 18,
        forall|i: int| 18 <= i < request_1.mtu ==> #[trigger] request_1.bytes()[i] == 0,
        request_1.bytes().take(18) == seq![0x05u8] + marks() + seq![request_1.protocol],
        reply_1.cookie is None ==> reply_1.bytes() == seq![0x06u8] + marks() + u64_bytes(
            reply_1.guid,
        ) + seq![0u8] + u16_bytes(reply_1.mtu),
        request_2.cookie is None ==> request_2.bytes() == seq![0x07u8] + marks() + addr_bytes(
            request_2.addr,
        ) + u16_bytes(request_2.mtu) + u64_bytes(request_2.client),
        reply_2.bytes() == seq![0x08u8] + marks() + u64_bytes(reply_2.guid) + addr_bytes(
            reply_2.addr,
        ) + u16_bytes(reply_2.mtu) + seq![
            if reply_2.security {
                1u8
            } else {
                0u8
            },
        ],
        incompatible.bytes() == seq![0x19u8, incompatible.protocol] + marks() + u64_bytes(
            incompatible.guid,
        ),
        (AlreadyConnected { guid }).bytes() == seq![0x12u8] + marks() + u64_bytes(guid),
        (NoFreeIncomingConnections { guid }).bytes() == seq![0x14u8] + marks() + u64_bytes(guid),
        (IpRecentlyConnected { guid }).bytes() == seq![0x1au8] + marks() + u64_bytes(guid),
{
    packets_are_marked();
    if request_1.mtu >= 18 {
        request_1.reads_back();
    }
    assert(request_1.bytes().take(18) =~= seq![0x05u8] + marks() + seq![request_1.protocol]);
    assert(reply_1.cookie is None ==> reply_1.bytes() =~= seq![0x06u8] + marks() + u64_bytes(
        reply_1.guid,
    ) + seq![0u8] + u16_bytes(reply_1.mtu));
    assert(request_2.cookie is None ==> request_2.bytes() =~= seq![0x07u8] + marks() + addr_bytes(
        request_2.addr,
    ) + u16_bytes(request_2.mtu) + u64_bytes(request_2.client));
}

/// A cookie is told, and repeated, as a signed number after a byte that says so, or before one
/// that declines security.
pub proof fn cookies_are_written(
    reply: OpenConnectionReply1,
    request: OpenConnectionRequest2,
    cookie: i32,
)
    requires
        reply.cookie == Some(cookie),
        request.cookie == Some(cookie),
    ensures
        reply.bytes() == seq![0x06u8] + marks() + u64_bytes(reply.guid) + seq![1u8] + u32_bytes(
            i32_bits(cookie),
        ) + u16_bytes(reply.mtu),
        request.bytes() == seq![0x07u8] + marks() + u32_bytes(i32_bits(cookie)) + seq![0u8]
            + addr_bytes(request.addr) + u16_bytes(request.mtu) + u64_bytes(request.client),
        cookie >= 0 ==> i32_bits(cookie) == cookie,
        cookie < 0 ==> i32_bits(cookie) == cookie + 0x1_0000_0000,
{
    packets_are_marked();
}

/// The packets of a connection, as they are written.
pub proof fn connection_packets_are_written(
    request: ConnectionRequest,
    accepted: ConnectionRequestAcceptedView,
    incoming: NewIncomingConnectionView,
)
    ensures
        request.bytes() == seq![0x09u8] + u64_bytes(request.client_guid) + u64_bytes(
            request.client_timestamp,
        ) + seq![
            if request.security {
                1u8
            } else {
                0u8
            },
        ],
        accepted.bytes() == seq![0x10u8] + addr_bytes(accepted.client_address) + u16_bytes(
            accepted.system_index,
        ) + addrs_bytes(accepted.system_addresses) + u64_bytes(accepted.request_timestamp)
            + u64_bytes(accepted.timestamp),
        incoming.bytes() == seq![0x13u8] + addr_bytes(incoming.server_address) + addrs_bytes(
            incoming.internal_addresses,
        ) + u64_bytes(incoming.incoming_timestamp) + u64_bytes(incoming.server_timestamp),
{
}

/// What keeps bytes from being a packet outside of a session: that there are fewer than it takes,
/// or else that it is not marked where it should be.
pub open spec fn fault(s: Seq<u8>, least: int, at: int) -> Option<RakCodecError> {
    if s.len() < least {
        Some(RakCodecError::UnexpectedEnd)
    } else if s.subrange(at, at + 16) != marks() {
        Some(RakCodecError::InvalidMagic)
    } else {
        None
    }
}

/// The packets outside of a session, as they are read: what keeps bytes from being one, and else
/// what they say, by where it stands.
pub proof fn offline_packets_are_read(s: Seq<u8>)
    ensures
        match fault(s, 33, 9) {
            Some(e) => UnconnectedPing::parsed(s) == Err::<UnconnectedPing, RakCodecError>(e),
            None => UnconnectedPing::parsed(s) matches Ok(p) && p.timestamp == u64_at(s, 1)
                && p.client == u64_at(s, 25),
        },
        match fault(s, 35, 17) {
            Some(e) => UnconnectedPongView::parsed(s) == Err::<UnconnectedPongView, RakCodecError>(
                e,
            ),
            None => if s.len() < 35 + u16_at(s, 33) {
                UnconnectedPongView::parsed(s) == Err::<UnconnectedPongView, RakCodecError>(
                    RakCodecError::UnexpectedEnd,
                )
            } else {
                UnconnectedPongView::parsed(s) matches Ok(p) && p.timestamp == u64_at(s, 1)
                    && p.guid == u64_at(s, 9) && p.message == s.subrange(35, 35 + u16_at(s, 33))
            },
        },
        match fault(s, 18, 1) {
            Some(e) => OpenConnectionRequest1::parsed(s) == Err::<
                OpenConnectionRequest1,
                RakCodecError,
            >(e),
            None => if s.len() > 0xffff {
                OpenConnectionRequest1::parsed(s) == Err::<OpenConnectionRequest1, RakCodecError>(
                    RakCodecError::TooLong,
                )
            } else {
                OpenConnectionRequest1::parsed(s) matches Ok(p) && p.protocol == s[17] && p.mtu
                    == s.len()
            },
        },
        match fault(s, 25, 1) {
            Some(e) => AlreadyConnected::parsed(s) == Err::<AlreadyConnected, RakCodecError>(e)
                && NoFreeIncomingConnections::parsed(s) == Err::<
                NoFreeIncomingConnections,
                RakCodecError,
            >(e) && IpRecentlyConnected::parsed(s) == Err::<IpRecentlyConnected, RakCodecError>(e),
            None => (AlreadyConnected::parsed(s) matches Ok(p) && p.guid == u64_at(s, 17)) && (
            NoFreeIncomingConnections::parsed(s) matches Ok(p) && p.guid == u64_at(s, 17)) && (
            IpRecentlyConnected::parsed(s) matches Ok(p) && p.guid == u64_at(s, 17)),
        },
        match fault(s, 26, 2) {
            Some(e) => IncompatibleProtocol::parsed(s) == Err::<IncompatibleProtocol, RakCodecError>(
                e,
            ),
            None => IncompatibleProtocol::parsed(s) matches Ok(p) && p.protocol == s[1] && p.guid
                == u64_at(s, 18),
        },
{
    packets_are_marked();
}

/// The agreements of a server and the second request of a client, as they are read.
pub proof fn agreements_are_read(s: Seq<u8>)
    ensures
        match fault(s, 28, 1) {
            Some(e) => OpenConnectionReply1::parsed(s) == Err::<OpenConnectionReply1, RakCodecError>(
                e,
            ),
            None => if s[25] == 0 {
                OpenConnectionReply1::parsed(s) matches Ok(p) && p.guid == u64_at(s, 17)
                    && p.cookie is None && p.mtu == u16_at(s, 26)
            } else if s.len() < 32 {
                OpenConnectionReply1::parsed(s) == Err::<OpenConnectionReply1, RakCodecError>(
                    RakCodecError::UnexpectedEnd,
                )
            } else {
                OpenConnectionReply1::parsed(s) matches Ok(p) && p.guid == u64_at(s, 17) && p.cookie
                    == Some(i32_at(s, 26)) && p.mtu == u16_at(s, 30)
            },
        },
        match fault(s, 25, 1) {
            Some(e) => OpenConnectionReply2::parsed(s) == Err::<OpenConnectionReply2, RakCodecError>(
                e,
            ),
            None => match addr_at(s, 25) {
                Err(e) => OpenConnectionReply2::parsed(s) == Err::<
                    OpenConnectionReply2,
                    RakCodecError,
                >(e),
                Ok((addr, n)) => if s.len() < 28 + n {
                    OpenConnectionReply2::parsed(s) == Err::<OpenConnectionReply2, RakCodecError>(
                        RakCodecError::UnexpectedEnd,
                    )
                } else {
                    OpenConnectionReply2::parsed(s) matches Ok(p) && p.guid == u64_at(s, 17)
                        && p.addr == addr && p.mtu == u16_at(s, 25 + n) && p.security == (s[27 + n]
                        != 0)
                },
            },
        },
        match fault(s, 17, 1) {
            Some(e) => OpenConnectionRequest2::parsed(s) == Err::<
                OpenConnectionRequest2,
                RakCodecError,
            >(e),
            None => {
                let repeats = s.len() == 39 && s[22] == 4 || s.len() == 61 && s[22] == 6;
                let at = if repeats {
                    22int
                } else {
                    17int
                };
                match addr_at(s, at) {
                    Err(e) => OpenConnectionRequest2::parsed(s) == Err::<
                        OpenConnectionRequest2,
                        RakCodecError,
                    >(e),
                    Ok((addr, n)) => if s.len() < at + n + 10 {
                        OpenConnectionRequest2::parsed(s) == Err::<
                            OpenConnectionRequest2,
                            RakCodecError,
                        >(RakCodecError::UnexpectedEnd)
                    } else {
                        OpenConnectionRequest2::parsed(s) matches Ok(p) && p.addr == addr && p.mtu
                            == u16_at(s, at + n) && p.client == u64_at(s, at + n + 2) && p.cookie
                            == if repeats {
                            Some(i32_at(s, 17))
                        } else {
                            None
                        }
                    },
                }
            },
        },
{
    packets_are_marked();
}

/// The packets of a connection, as they are read.
pub proof fn connection_packets_are_read(s: Seq<u8>)
    ensures
        s.len() < 18 ==> ConnectionRequest::parsed(s) == Err::<ConnectionRequest, RakCodecError>(
            RakCodecError::UnexpectedEnd,
        ),
        s.len() >= 18 ==> (ConnectionRequest::parsed(s) matches Ok(p) && p.client_guid == u64_at(
            s,
            1,
        ) && p.client_timestamp == u64_at(s, 9) && p.security == (s[17] != 0)),
        match addr_at(s, 1) {
            Err(e) => ConnectionRequestAcceptedView::parsed(s) == Err::<
                ConnectionRequestAcceptedView,
                RakCodecError,
            >(e) && NewIncomingConnectionView::parsed(s) == Err::<
                NewIncomingConnectionView,
                RakCodecError,
            >(e),
            Ok((addr, n)) => {
                &&& s.len() < n + 19 ==> ConnectionRequestAcceptedView::parsed(s) == Err::<
                    ConnectionRequestAcceptedView,
                    RakCodecError,
                >(RakCodecError::UnexpectedEnd)
                &&& s.len() >= n + 19 ==> match addrs_between(s, n + 3, s.len() - 16) {
                    Err(e) => ConnectionRequestAcceptedView::parsed(s) == Err::<
                        ConnectionRequestAcceptedView,
                        RakCodecError,
                    >(e),
                    Ok(addrs) => ConnectionRequestAcceptedView::parsed(s) matches Ok(p)
                        && p.client_address == addr && p.system_index == u16_at(s, n + 1)
                        && p.system_addresses == addrs && p.request_timestamp == u64_at(
                        s,
                        s.len() - 16,
                    ) && p.timestamp == u64_at(s, s.len() - 8),
                }
                &&& s.len() < n + 17 ==> NewIncomingConnectionView::parsed(s) == Err::<
                    NewIncomingConnectionView,
                    RakCodecError,
                >(RakCodecError::UnexpectedEnd)
                &&& s.len() >= n + 17 ==> match addrs_between(s, n + 1, s.len() - 16) {
                    Err(e) => NewIncomingConnectionView::parsed(s) == Err::<
                        NewIncomingConnectionView,
                        RakCodecError,
                    >(e),
                    Ok(addrs) => NewIncomingConnectionView::parsed(s) matches Ok(p)
                        && p.server_address == addr && p.internal_addresses == addrs
                        && p.incoming_timestamp == u64_at(s, s.len() - 16) && p.server_timestamp
                        == u64_at(s, s.len() - 8),
                }
            },
        },
{
}

/// Packets are written behind what is there, as they are.
pub proof fn packets_are_added(
    out: &mut Vec<u8>,
    ping: UnconnectedPing,
    also: &mut Vec<u8>,
    pong: UnconnectedPong,
    r: Result<(), RakCodecError>,
    third: &mut Vec<u8>,
    request: OpenConnectionRequest1,
    fourth: &mut Vec<u8>,
    reply: OpenConnectionReply1,
)
    requires
        call_ensures(UnconnectedPing::serialize, (&ping, out), ()),
        call_ensures(UnconnectedPong::serialize, (&pong, also), r),
        call_ensures(OpenConnectionRequest1::serialize, (&request, third), ()),
        call_ensures(OpenConnectionReply1::serialize, (&reply, fourth), ()),
    ensures
        final(out)@ == old(out)@ + ping.bytes(),
        pong.message@.len() <= 0xffff ==> r is Ok && final(also)@ == old(also)@
            + pong@.bytes(),
        pong.message@.len() > 0xffff ==> (r matches Err(e) && e is TooLong),
        pong@.timestamp == pong.timestamp && pong@.guid == pong.guid && pong@.message
            == pong.message@,
        final(third)@ == old(third)@ + request.bytes(),
        final(fourth)@ == old(fourth)@ + reply.bytes(),
{
}

/// The same of the packets that open a session, refuse one, and connect it.
pub proof fn more_packets_are_added(
    a: &mut Vec<u8>,
    request: OpenConnectionRequest2,
    b: &mut Vec<u8>,
    reply: OpenConnectionReply2,
    c: &mut Vec<u8>,
    connection: ConnectionRequest,
    d: &mut Vec<u8>,
    accepted: ConnectionRequestAccepted,
    e: &mut Vec<u8>,
    incoming: NewIncomingConnection,
)
    requires
        call_ensures(OpenConnectionRequest2::serialize, (&request, a), ()),
        call_ensures(OpenConnectionReply2::serialize, (&reply, b), ()),
        call_ensures(ConnectionRequest::serialize, (&connection, c), ()),
        call_ensures(ConnectionRequestAccepted::serialize, (&accepted, d), ()),
        call_ensures(NewIncomingConnection::serialize, (&incoming, e), ()),
    ensures
        final(a)@ == old(a)@ + request.bytes(),
        final(b)@ == old(b)@ + reply.bytes(),
        final(c)@ == old(c)@ + connection.bytes(),
        final(d)@ == old(d)@ + accepted@.bytes(),
        final(e)@ == old(e)@ + incoming@.bytes(),
        accepted@.client_address == accepted.client_address && accepted@.system_index
            == accepted.system_index && accepted@.system_addresses == accepted.system_addresses@
            && accepted@.request_timestamp == accepted.request_timestamp && accepted@.timestamp
            == accepted.timestamp,
        incoming@.server_address == incoming.server_address && incoming@.internal_addresses
            == incoming.internal_addresses@ && incoming@.incoming_timestamp
            == incoming.incoming_timestamp && incoming@.server_timestamp
            == incoming.server_timestamp,
{
}

/// The same of the refusals, which are also read.
pub proof fn refusals_are_added_and_read(
    a: &mut Vec<u8>,
    incompatible: IncompatibleProtocol,
    b: &mut Vec<u8>,
    connected: AlreadyConnected,
    c: &mut Vec<u8>,
    full: NoFreeIncomingConnections,
    d: &mut Vec<u8>,
    recent: IpRecentlyConnected,
    buf: &[u8],
    read: (
        Result<IncompatibleProtocol, RakCodecError>,
        Result<AlreadyConnected, RakCodecError>,
        Result<NoFreeIncomingConnections, RakCodecError>,
        Result<IpRecentlyConnected, RakCodecError>,
    ),
)
    requires
        call_ensures(IncompatibleProtocol::serialize, (&incompatible, a), ()),
        call_ensures(AlreadyConnected::serialize, (&connected, b), ()),
        call_ensures(NoFreeIncomingConnections::serialize, (&full, c), ()),
        call_ensures(IpRecentlyConnected::serialize, (&recent, d), ()),
        call_ensures(IncompatibleProtocol::deserialize, (buf,), read.0),
        call_ensures(AlreadyConnected::deserialize, (buf,), read.1),
        call_ensures(NoFreeIncomingConnections::deserialize, (buf,), read.2),
        call_ensures(IpRecentlyConnected::deserialize, (buf,), read.3),
    ensures
        final(a)@ == old(a)@ + incompatible.bytes(),
        final(b)@ == old(b)@ + connected.bytes(),
        final(c)@ == old(c)@ + full.bytes(),
        final(d)@ == old(d)@ + recent.bytes(),
        read.0 == IncompatibleProtocol::parsed(buf@),
        read.1 == AlreadyConnected::parsed(buf@),
        read.2 == NoFreeIncomingConnections::parsed(buf@),
        read.3 == IpRecentlyConnected::parsed(buf@),
{
}

/// Packets are read as they are written.
pub proof fn packets_are_read(
    buf: &[u8],
    ping: Result<UnconnectedPing, RakCodecError>,
    request_1: Result<OpenConnectionRequest1, RakCodecError>,
    reply_1: Result<OpenConnectionReply1, RakCodecError>,
    request_2: Result<OpenConnectionRequest2, RakCodecError>,
    reply_2: Result<OpenConnectionReply2, RakCodecError>,
    connection: Result<ConnectionRequest, RakCodecError>,
    pong: Result<UnconnectedPong, RakCodecError>,
    accepted: Result<ConnectionRequestAccepted, RakCodecError>,
    incoming: Result<NewIncomingConnection, RakCodecError>,
)
    requires
        call_ensures(UnconnectedPing::deserialize, (buf,), ping),
        call_ensures(OpenConnectionRequest1::deserialize, (buf,), request_1),
        call_ensures(OpenConnectionReply1::deserialize, (buf,), reply_1),
        call_ensures(OpenConnectionRequest2::deserialize, (buf,), request_2),
        call_ensures(OpenConnectionReply2::deserialize, (buf,), reply_2),
        call_ensures(ConnectionRequest::deserialize, (buf,), connection),
        call_ensures(UnconnectedPong::deserialize, (buf,), pong),
        call_ensures(ConnectionRequestAccepted::deserialize, (buf,), accepted),
        call_ensures(NewIncomingConnection::deserialize, (buf,), incoming),
    ensures
        ping == UnconnectedPing::parsed(buf@),
        request_1 == OpenConnectionRequest1::parsed(buf@),
        reply_1 == OpenConnectionReply1::parsed(buf@),
        request_2 == OpenConnectionRequest2::parsed(buf@),
        reply_2 == OpenConnectionReply2::parsed(buf@),
        connection == ConnectionRequest::parsed(buf@),
        match pong {
            Ok(p) => UnconnectedPongView::parsed(buf@) == Ok::<UnconnectedPongView, RakCodecError>(
                p@,
            ),
            Err(e) => UnconnectedPongView::parsed(buf@) == Err::<UnconnectedPongView, RakCodecError>(
                e,
            ),
        },
        match accepted {
            Ok(p) => ConnectionRequestAcceptedView::parsed(buf@) == Ok::<
                ConnectionRequestAcceptedView,
                RakCodecError,
            >(p@),
            Err(e) => ConnectionRequestAcceptedView::parsed(buf@) == Err::<
                ConnectionRequestAcceptedView,
                RakCodecError,
            >(e),
        },
        match incoming {
            Ok(p) => NewIncomingConnectionView::parsed(buf@) == Ok::<
                NewIncomingConnectionView,
                RakCodecError,
            >(p@),
            Err(e) => NewIncomingConnectionView::parsed(buf@) == Err::<
                NewIncomingConnectionView,
                RakCodecError,
            >(e),
        },
{
}

} // verus!
