//! What a server that is updated in turns is for: what each part of an update comes to.

use crate::bevy_raknet::server::{
    ends, packets, plain_datagrams, plain_packets, RakServer, RakServerAction,
    RakServerActionView, RakServerEvent, RakServerState, RakServerUpdate, RakServerWork,
};
use crate::bevy_raknet::{RakPhase, RakReceived};
use crate::net::SocketAddr;
use crate::server::config::RakServerConfig;
use crate::server::error::RakServerError;
use crate::server::input::{RakServerInput, RakServerStep};
use crate::server::laws::plain_result;
use crate::server::model::RakServerModel;
use crate::server::output::RakServerOutputView;
use crate::server::rules::datagrams_are_inputs;
use crate::session::{
    datagrams, RakDisconnectReason, RakSession, RakSessionError, RakSessionId, RakSessionInput,
    RakSessionInputView, RakSessionOutput,
};
use crate::time::SystemTime;
use crate::types::priority::RakPriority;
use crate::types::reliability::RakReliability;
use crate::util::rules::lists_have_every_session;
use vstd::prelude::*;

verus! {

/// What the next output of the inner server asks for. Bytes are sent where they are to go. A
/// datagram is given, byte for byte, to the session that it is for, if that has connected; it is
/// noted that there is none otherwise. A session that has connected joins the others, and is told
/// of. The output is seen to by then, and nothing else changes.
pub proof fn outputs_are_acted_on<P>(
    s: RakServerState<P>,
    now: SystemTime,
    action: RakServerAction,
)
    requires
        s.intl.output.len() > 0,
        action@ == s.action(now),
    ensures
        ({
            let after = s.taken();
            let rest = RakServerModel { output: s.intl.output.drop_first(), ..s.intl };
            match s.intl.output[0] {
                RakServerOutputView::SocketDatagram(buf, addr) => {
                    &&& action matches RakServerAction::SendTo(bytes, to)
                    &&& bytes@ == buf
                    &&& to == addr
                    &&& after == RakServerState { intl: rest, ..s }
                },
                RakServerOutputView::SessionDatagram(buf, id) => {
                    &&& s.sessions.contains_key(id.0) ==> (action matches RakServerAction::Forward(
                        to,
                        RakSessionInput::Datagram(bytes, at),
                    ) && to == id && bytes@ == buf && at == now)
                    &&& !s.sessions.contains_key(id.0) ==> (action
                        matches RakServerAction::Unknown(to) && to == id)
                    &&& after == RakServerState { intl: rest, ..s }
                },
                RakServerOutputView::SessionConnected(session) => {
                    &&& action matches RakServerAction::Connected(id)
                    &&& id == session.id
                    &&& after == RakServerState {
                        intl: rest,
                        sessions: s.sessions.insert(session.id.0, session),
                        events: s.events.push(
                            RakServerEvent::SessionConnected {
                                id: session.id,
                                addr: session.addr,
                                guid: session.guid,
                            },
                        ),
                        ..s
                    }
                },
            }
        }),
{
}

/// Once the socket was read, the next thing to be done in an update is what the next output asks
/// for; a datagram for a session that has connected is given to that session with the bytes that
/// came.
pub proof fn polling_gives_sessions_their_bytes<P>(
    s: RakServerState<P>,
    update: RakServerUpdate,
    after: RakServerState<P>,
    next: RakServerUpdate,
    work: RakServerWork,
)
    requires
        update.phase is Polling,
        s.intl.output.len() > 0,
        s.works(update, after, next, work),
    ensures
        next == update,
        after == s.taken(),
        match s.intl.output[0] {
            RakServerOutputView::SocketDatagram(buf, addr) => work matches RakServerWork::Act(
                RakServerAction::SendTo(bytes, to),
            ) && bytes@ == buf && to == addr,
            RakServerOutputView::SessionDatagram(buf, id) => {
                &&& s.sessions.contains_key(id.0) ==> (work matches RakServerWork::Act(
                    RakServerAction::Forward(to, RakSessionInput::Datagram(bytes, at)),
                ) && to == id && bytes@ == buf && at == update.now)
                &&& !s.sessions.contains_key(id.0) ==> (work matches RakServerWork::Act(
                    RakServerAction::Unknown(to),
                ) && to == id)
            },
            RakServerOutputView::SessionConnected(session) => work matches RakServerWork::Act(
                RakServerAction::Connected(id),
            ) && id == session.id,
        },
{
    if let RakServerWork::Act(action) = work {
        outputs_are_acted_on(s, update.now, action);
    }
}

/// Bytes of a session that come from its address reach it unchanged: once the outputs before are
/// seen to, the next thing to be done is to give them to the session.
pub proof fn bytes_reach_their_session<P>(
    s: RakServerState<P>,
    buf: Vec<u8>,
    addr: SocketAddr,
    update: RakServerUpdate,
    after: RakServerState<P>,
    next: RakServerUpdate,
    work: RakServerWork,
)
    requires
        buf@.len() > 0,
        buf@[0] >= 0x80,
        s.intl.session_map.contains_key(addr),
        !s.intl.pending.contains_key(addr),
        s.sessions.contains_key(s.intl.session_map[addr].0),
        s.intl.output.len() == 0,
        update.phase is Polling,
        (RakServerState {
            intl: s.intl.handled(RakServerInput::Datagram(buf, addr, update.now)).0,
            ..s
        }).works(update, after, next, work),
    ensures
        work matches RakServerWork::Act(
            RakServerAction::Forward(to, RakSessionInput::Datagram(bytes, at)),
        ) && to == s.intl.session_map[addr] && bytes@ == buf@ && at == update.now,
        after.intl.output.len() == 0,
{
    let read = RakServerState {
        intl: s.intl.handled(RakServerInput::Datagram(buf, addr, update.now)).0,
        ..s
    };
    polling_gives_sessions_their_bytes(read, update, after, next, work);
}

/// What an update does by its phase. The socket is read first. When no outputs are left, the
/// sessions are updated, from the first of a list of all of them, and when none is left those that
/// are over are removed and the update is finished, and stays so.
pub proof fn updates_go_by_phases<P>(
    s: RakServerState<P>,
    update: RakServerUpdate,
    after: RakServerState<P>,
    next: RakServerUpdate,
    work: RakServerWork,
    k: u64,
)
    requires
        s.works(update, after, next, work),
    ensures
        next.now == update.now,
        match update.phase {
            RakPhase::Receiving(_) => work is Receive && after == s && next == update,
            RakPhase::Polling => s.intl.output.len() == 0 ==> {
                &&& next.ids@.no_duplicates()
                &&& s.sessions.contains_key(k) <==> next.ids@.contains(RakSessionId(k))
                &&& next.ids@.len() > 0 ==> after == s && work == RakServerWork::Update(
                    next.ids@[0],
                    RakSessionInput::Update(update.now),
                ) && next.phase == RakPhase::Updating(1) && next.disconnected@
                    == update.disconnected@
                &&& next.ids@.len() == 0 ==> work is Finish && next.phase is Finished && after
                    == s.without_all(update.disconnected@, update.now)
            },
            RakPhase::Updating(i) => {
                &&& next.ids@ == update.ids@
                &&& i < update.ids@.len() ==> after == s && work == RakServerWork::Update(
                    update.ids@[i as int],
                    RakSessionInput::Update(update.now),
                ) && next.phase == RakPhase::Updating((i + 1) as usize) && next.disconnected@
                    == update.disconnected@
                &&& i >= update.ids@.len() ==> work is Finish && next.phase is Finished && after
                    == s.without_all(update.disconnected@, update.now)
            },
            _ => work is Finish && after == s && next == update,
        },
{
}

/// Removing sessions that are over tells the inner server of each, takes it out, and tells why it
/// is over, one after the other; removing more of them afterwards is removing all.
pub proof fn removal_goes_one_by_one<P>(
    s: RakServerState<P>,
    a: Seq<(RakSessionId, RakDisconnectReason)>,
    b: Seq<(RakSessionId, RakDisconnectReason)>,
    now: SystemTime,
)
    ensures
        s.without_all(a + b, now) == s.without_all(a, now).without_all(b, now),
        a.len() == 0 ==> s.without_all(a, now) == s,
        a.len() == 1 ==> s.without_all(a, now) == (RakServerState {
            intl: s.intl.handled(RakServerInput::RemoveSession(a[0].0, now)).0,
            sessions: s.sessions.remove(a[0].0.0),
            events: s.events.push(
                RakServerEvent::SessionDisconnected { id: a[0].0, reason: a[0].1 },
            ),
            ..s
        }),
    decreases b.len(),
{
    if a.len() == 1 {
        assert(a.drop_last() =~= seq![]);
        assert(s.without_all(a.drop_last(), now) == s);
    }
    if b.len() == 0 {
        assert(a + b =~= a);
    } else {
        removal_goes_one_by_one(s, a, b.drop_last(), now);
        assert((a + b).drop_last() =~= a + b.drop_last());
        assert((a + b).last() == b.last());
    }
}

/// The packets and the ends of outputs that follow others follow those of these; a packet is one
/// of the session that put it out, an end names the session that it is of, and nothing else is
/// either.
pub proof fn outputs_keep_their_order(
    id: RakSessionId,
    a: Seq<RakSessionOutput>,
    b: Seq<RakSessionOutput>,
)
    ensures
        packets(id, a + b) == packets(id, a) + packets(id, b),
        ends(a + b) == ends(a) + ends(b),
        a.len() == 1 ==> packets(id, a) == match a[0] {
            RakSessionOutput::Packet(buf) => seq![(id, buf@)],
            _ => seq![],
        },
        a.len() == 1 ==> ends(a) == match a[0] {
            RakSessionOutput::Disconnected(of, reason) => seq![(of, reason)],
            _ => seq![],
        },
    decreases b.len(),
{
    if a.len() == 1 {
        assert(a.drop_last() =~= seq![]);
        assert(packets(id, a.drop_last()) =~= seq![]);
        assert(ends(a.drop_last()) =~= seq![]);
        assert(packets(id, a) =~= match a[0] {
            RakSessionOutput::Packet(buf) => seq![(id, buf@)],
            _ => seq![],
        });
        assert(ends(a) =~= match a[0] {
            RakSessionOutput::Disconnected(of, reason) => seq![(of, reason)],
            _ => seq![],
        });
    }
    if b.len() == 0 {
        assert(a + b =~= a);
        assert(packets(id, a) + packets(id, b) =~= packets(id, a));
        assert(ends(a) + ends(b) =~= ends(a));
    } else {
        outputs_keep_their_order(id, a, b.drop_last());
        assert((a + b).drop_last() =~= a + b.drop_last());
        assert((a + b).last() == b.last());
        assert(packets(id, a + b) =~= packets(id, a) + packets(id, b));
        assert(ends(a + b) =~= ends(a) + ends(b));
    }
}

/// Running the protocol of a session changes the state of the protocol alone.
pub proof fn protocols_run_by_themselves<P>(
    s: RakServerState<P>,
    id: RakSessionId,
    protocol: Option<P>,
)
    requires
        s.sessions.contains_key(id.0),
    ensures
        ({
            let after = s.with_protocol(id, protocol);
            &&& after == RakServerState { sessions: after.sessions, ..s }
            &&& forall|k: u64|
                #![trigger after.sessions.contains_key(k)]
                after.sessions.contains_key(k) == s.sessions.contains_key(k) && (k != id.0
                    ==> after.sessions[k] == s.sessions[k])
            &&& after.sessions[id.0] == RakSession { protocol, ..s.sessions[id.0] }
        }),
{
}

/// What is kept and sent is told byte for byte.
pub proof fn bytes_are_told(
    received: Seq<(RakSessionId, Vec<u8>)>,
    sent: Seq<(Vec<u8>, SocketAddr)>,
    action: RakServerAction,
)
    ensures
        plain_packets(received).len() == received.len(),
        forall|i: int|
            0 <= i < received.len() ==> #[trigger] plain_packets(received)[i] == (
                received[i].0,
                received[i].1@,
            ),
        plain_datagrams(sent).len() == sent.len(),
        forall|i: int|
            0 <= i < sent.len() ==> #[trigger] plain_datagrams(sent)[i] == (sent[i].0@, sent[i].1),
        match action {
            RakServerAction::SendTo(buf, addr) => action@ == RakServerActionView::SendTo(
                buf@,
                addr,
            ),
            RakServerAction::Forward(id, input) => action@ == RakServerActionView::Forward(
                id,
                input@,
            ),
            RakServerAction::Unknown(id) => action@ == RakServerActionView::Unknown(id),
            RakServerAction::Connected(id) => action@ == RakServerActionView::Connected(id),
        },
{
}

/// What an update does is what its phase asks for, and it begins by reading the socket, at most
/// 1024 times.
pub proof fn updates_do_what_is_asked<P>(
    server: &mut RakServer<P>,
    update: &mut RakServerUpdate,
    work: RakServerWork,
    other: &RakServer<P>,
    now: SystemTime,
    begun: RakServerUpdate,
)
    requires
        call_ensures(RakServer::<P>::work, (server, update), work),
        call_ensures(RakServer::<P>::update, (other, now), begun),
    ensures
        old(server)@.works(*old(update), final(server)@, *final(update), work),
        begun.now == now,
        begun.phase == RakPhase::Receiving(1024),
        begun.disconnected@.len() == 0,
{
}

/// What the socket gave is told to the inner server, byte for byte; a reading that gave nothing
/// changes nothing but how often it is read.
pub proof fn readings_are_told<P>(
    server: &mut RakServer<P>,
    update: &mut RakServerUpdate,
    received: RakReceived,
    r: Result<RakServerStep, RakServerError>,
)
    requires
        call_ensures(RakServer::<P>::received, (server, update, received), r),
    ensures
        final(update).phase == old(update).phase.after_read(received, RakPhase::Polling),
        final(update).now == old(update).now,
        final(update).ids == old(update).ids,
        final(update).disconnected == old(update).disconnected,
        received matches RakReceived::Datagram(buf, addr) ==> ({
            let (intl, result) = old(server)@.intl.handled(
                RakServerInput::Datagram(buf, addr, old(update).now),
            );
            plain_result(r) == result && final(server)@ == (RakServerState {
                intl,
                ..old(server)@
            })
        }),
        !(received is Datagram) ==> final(server)@ == old(server)@ && (r
            matches Ok(RakServerStep::Done)),
{
    if let RakReceived::Datagram(buf, addr) = received {
        datagrams_are_inputs(old(server)@.intl, buf, addr, old(update).now);
    }
}

/// What a session puts out is kept, sent or remembered as its end, each in order, whether in an
/// update or not.
pub proof fn sessions_are_drained<P>(
    server: &mut RakServer<P>,
    id: RakSessionId,
    outputs: Vec<RakSessionOutput>,
    disconnected: &mut Vec<(RakSessionId, RakDisconnectReason)>,
    sent: Vec<(Vec<u8>, SocketAddr)>,
    updated: &mut RakServer<P>,
    update: &mut RakServerUpdate,
    also_sent: Vec<(Vec<u8>, SocketAddr)>,
)
    requires
        call_ensures(RakServer::<P>::drain, (server, id, outputs, disconnected), sent),
        call_ensures(RakServer::<P>::updated, (updated, update, id, outputs), also_sent),
    ensures
        final(server)@ == (RakServerState {
            received: old(server)@.received + packets(id, outputs@),
            ..old(server)@
        }),
        final(disconnected)@ == old(disconnected)@ + ends(outputs@),
        plain_datagrams(sent@) == datagrams(outputs@),
        final(updated)@ == (RakServerState {
            received: old(updated)@.received + packets(id, outputs@),
            ..old(updated)@
        }),
        final(update).disconnected@ == old(update).disconnected@ + ends(outputs@),
        final(update).phase == old(update).phase,
        final(update).ids == old(update).ids,
        final(update).now == old(update).now,
        plain_datagrams(also_sent@) == datagrams(outputs@),
{
}

/// What was received and what became of sessions comes out in the order in which it came, each
/// once; sessions that are over are removed.
pub proof fn queues_come_out_in_order<P>(
    a: &mut RakServer<P>,
    packet: Option<(RakSessionId, Vec<u8>)>,
    b: &mut RakServer<P>,
    event: Option<RakServerEvent>,
    c: &mut RakServer<P>,
    ids: Vec<(RakSessionId, RakDisconnectReason)>,
    now: SystemTime,
)
    requires
        call_ensures(RakServer::<P>::recv, (a,), packet),
        call_ensures(RakServer::<P>::next_event, (b,), event),
        call_ensures(RakServer::<P>::remove_sessions, (c, ids, now), ()),
    ensures
        packet is Some <==> old(a)@.received.len() > 0,
        packet matches Some((id, buf)) ==> seq![(id, buf@)] + final(a)@.received
            == old(a)@.received,
        packet is None ==> final(a)@.received == old(a)@.received,
        final(a)@ == (RakServerState { received: final(a)@.received, ..old(a)@ }),
        event is Some <==> old(b)@.events.len() > 0,
        event matches Some(event) ==> seq![event] + final(b)@.events == old(b)@.events,
        event is None ==> final(b)@.events == old(b)@.events,
        final(b)@ == (RakServerState { events: final(b)@.events, ..old(b)@ }),
        final(c)@ == old(c)@.without_all(ids@, now),
{
    if let Some((id, buf)) = packet {
        assert(seq![(id, buf@)] + old(a)@.received.drop_first() =~= old(a)@.received);
    }
    if let Some(event) = event {
        assert(seq![event] + old(b)@.events.drop_first() =~= old(b)@.events);
    }
}

/// What is to be sent or ended goes, as it is, to the session that it is for, if that has
/// connected; what is for all goes to all that have, once each, and so does the end of all.
pub proof fn sessions_are_given_what_is_theirs<P>(
    server: &RakServer<P>,
    id: RakSessionId,
    buf: Vec<u8>,
    reliability: RakReliability,
    priority: RakPriority,
    now: SystemTime,
    sending: Result<RakSessionInput, RakSessionError>,
    ending: Option<RakSessionInput>,
    all: Vec<(RakSessionId, RakSessionInput)>,
    ends: Vec<(RakSessionId, RakSessionInput)>,
    i: int,
    j: int,
)
    requires
        call_ensures(
            RakServer::<P>::send,
            (server, id, buf, reliability, priority, now),
            sending,
        ),
        call_ensures(RakServer::<P>::disconnect, (server, id, now), ending),
        call_ensures(
            RakServer::<P>::broadcast,
            (server, &buf, reliability, priority, now),
            all,
        ),
        call_ensures(RakServer::<P>::farewells, (server, now), ends),
    ensures
        sending is Ok <==> server@.sessions.contains_key(id.0),
        sending matches Ok(input) ==> input@ == RakSessionInputView::Send(
            buf@,
            reliability,
            priority,
            now,
        ),
        sending matches Err(e) ==> e is Closed,
        ending is Some <==> server@.sessions.contains_key(id.0),
        ending matches Some(input) ==> input == RakSessionInput::Disconnect(now),
        0 <= i < all@.len() ==> server@.sessions.contains_key(all@[i].0.0) && all@[i].1@
            == RakSessionInputView::Send(buf@, reliability, priority, now),
        0 <= i < j < all@.len() ==> all@[i].0 != all@[j].0,
        server@.sessions.contains_key(id.0) ==> exists|n: int|
            0 <= n < all@.len() && (#[trigger] all@[n]).0 == id,
        0 <= i < ends@.len() ==> server@.sessions.contains_key(ends@[i].0.0) && ends@[i].1
            == RakSessionInput::Disconnect(now),
        0 <= i < j < ends@.len() ==> ends@[i].0 != ends@[j].0,
        server@.sessions.contains_key(id.0) ==> exists|n: int|
            0 <= n < ends@.len() && (#[trigger] ends@[n]).0 == id,
{
    let named = all@.map_values(|i: (RakSessionId, RakSessionInput)| i.0);
    let parting = ends@.map_values(|i: (RakSessionId, RakSessionInput)| i.0);
    lists_have_every_session(named, server@.sessions, id.0, i, j);
    lists_have_every_session(parting, server@.sessions, id.0, i, j);
    if server@.sessions.contains_key(id.0) {
        let n = choose|n: int| 0 <= n < named.len() && #[trigger] named[n] == RakSessionId(id.0);
        assert(all@[n].0 == id);
        let n = choose|n: int|
            0 <= n < parting.len() && #[trigger] parting[n] == RakSessionId(id.0);
        assert(ends@[n].0 == id);
    }
}

/// A new server has nothing but its settings and its address; a server tells which sessions have
/// connected, each as it is, and keeps what is set.
pub proof fn servers_tell_what_they_are<P>(
    addr: SocketAddr,
    config: RakServerConfig,
    created: RakServer<P>,
    server: &RakServer<P>,
    id: RakSessionId,
    ids: Vec<RakSessionId>,
    session: Option<&RakSession<P>>,
    a: &mut RakServer<P>,
    message: Vec<u8>,
    b: &mut RakServer<P>,
    n: usize,
)
    requires
        call_ensures(RakServer::<P>::new, (addr, config), created),
        call_ensures(RakServer::<P>::sessions, (server,), ids),
        call_ensures(RakServer::<P>::session, (server, id), session),
        call_ensures(RakServer::<P>::set_message, (a, message), ()),
        call_ensures(RakServer::<P>::set_max_connections, (b, n), ()),
    ensures
        created@.intl == RakServerModel::<P>::created(config, addr),
        created@.received.len() == 0,
        created@.events.len() == 0,
        !created@.sessions.contains_key(id.0),
        ids@.contains(id) <==> server@.sessions.contains_key(id.0),
        ids@.no_duplicates(),
        session is Some <==> server@.sessions.contains_key(id.0),
        session matches Some(session) ==> *session == server@.sessions[id.0],
        final(a)@ == (RakServerState {
            intl: old(a)@.intl.handled(RakServerInput::SetMessage(message)).0,
            ..old(a)@
        }),
        final(b)@ == (RakServerState {
            intl: old(b)@.intl.handled(RakServerInput::SetMaxConnections(n)).0,
            ..old(b)@
        }),
{
}

/// The server passes on what the protocol of a pending session does, and tells of that session
/// and of what can be dealt with as the inner server does.
pub proof fn servers_follow_protocols<P>(
    server: &mut RakServer<P>,
    other: &RakServer<P>,
    addr: SocketAddr,
    output: Option<RakSessionOutput>,
    now: SystemTime,
    result: Result<(), RakSessionError>,
    polled: Result<RakServerStep, RakServerError>,
    handled: Result<RakServerStep, RakServerError>,
    pending: Option<&RakSession<P>>,
    buf: &[u8],
    admitted: bool,
)
    requires
        call_ensures(RakServer::<P>::session_polled, (server, addr, output, now), polled),
        call_ensures(RakServer::<P>::session_handled, (other, addr, result), handled),
        call_ensures(RakServer::<P>::pending, (other, addr), pending),
        call_ensures(RakServer::<P>::admits_datagram, (other, buf, addr, now), admitted),
    ensures
        (final(server)@.intl, plain_result(polled)) == old(server)@.intl.session_polled(
            addr,
            output,
            now,
        ),
        final(server)@ == (RakServerState { intl: final(server)@.intl, ..old(server)@ }),
        result is Ok ==> (handled matches Ok(RakServerStep::Poll(to)) && to == addr),
        result matches Err(e) ==> (handled matches Err(RakServerError::Session(f)) && f == e),
        pending is Some <==> other@.intl.pending.contains_key(addr),
        pending matches Some(session) ==> *session == other@.intl.pending[addr].1,
        admitted <==> other@.intl.admits_datagram(buf@, addr, now),
{
}

/// The protocol of a session, or of one that is to be connected, is lent to be run: what is made
/// of it is the session's, and nothing else changes.
pub proof fn protocols_are_lent<P>(
    connected: &mut RakServer<P>,
    id: RakSessionId,
    lent: Option<&mut Option<P>>,
    connecting: &mut RakServer<P>,
    addr: SocketAddr,
    pending: Option<&mut Option<P>>,
)
    requires
        call_ensures(RakServer::<P>::protocol_mut, (connected, id), lent),
        call_ensures(RakServer::<P>::pending_protocol_mut, (connecting, addr), pending),
    ensures
        lent is Some <==> old(connected)@.sessions.contains_key(id.0),
        match lent {
            Some(protocol) => *protocol == old(connected)@.sessions[id.0].protocol && final(connected)@ == (RakServerState {
                sessions: old(connected)@.sessions.insert(
                    id.0,
                    RakSession { protocol: *final(protocol), ..old(connected)@.sessions[id.0] },
                ),
                ..old(connected)@
            }),
            None => final(connected)@ == old(connected)@,
        },
        pending is Some <==> old(connecting)@.intl.pending.contains_key(addr),
        match pending {
            Some(protocol) => *protocol == old(connecting)@.intl.pending[addr].1.protocol && final(connecting)@ == (RakServerState {
                intl: RakServerModel {
                    pending: old(connecting)@.intl.pending.insert(
                        addr,
                        (
                            old(connecting)@.intl.pending[addr].0,
                            RakSession {
                                protocol: *final(protocol),
                                ..old(connecting)@.intl.pending[addr].1
                            },
                        ),
                    ),
                    ..old(connecting)@.intl
                },
                ..old(connecting)@
            }),
            None => final(connecting)@ == old(connecting)@,
        },
{
}

} // verus!
