//! What a client that is updated in turns is for: what each part of an update comes to.

use crate::bevy_raknet::client::{
    end, packets, plain_pongs, plain_received, RakClient, RakClientAction, RakClientActionView,
    RakClientEvent, RakClientTurn, RakClientUpdate, RakClientWork,
};
use crate::bevy_raknet::server::plain_datagrams;
use crate::bevy_raknet::{RakPhase, RakReceived};
use crate::client::config::RakClientConfig;
use crate::client::error::RakClientError;
use crate::client::input::{
    RakClientExchange, RakClientInput, RakClientStep, RakClientStepView,
};
use crate::client::laws::plain_result;
use crate::client::model::RakClientModel;
use crate::client::output::RakClientOutputView;
use crate::client::state::RakClientState;
use crate::net::SocketAddr;
use crate::session::{
    datagrams, RakSession, RakSessionError, RakSessionInput, RakSessionInputView,
    RakSessionOutput,
};
use crate::time::SystemTime;
use crate::types::priority::RakPriority;
use crate::types::reliability::RakReliability;
use vstd::prelude::*;

verus! {

/// What the next output of the inner client asks for. Bytes are sent where they are to go. A
/// datagram is given, byte for byte, to the session, if there is one. A session that has connected
/// is the session from then on, and is told of. The answer of a server is kept. The output is seen
/// to by then, and nothing else changes.
pub proof fn outputs_are_acted_on<P>(c: RakClientTurn<P>, now: SystemTime, action: RakClientAction)
    requires
        c.intl.output.len() > 0,
        action@ == c.action(now),
    ensures
        ({
            let after = c.taken();
            let rest = RakClientModel { output: c.intl.output.drop_first(), ..c.intl };
            match c.intl.output[0] {
                RakClientOutputView::SocketDatagram(buf, addr) => {
                    &&& action matches RakClientAction::SendTo(bytes, to)
                    &&& bytes@ == buf
                    &&& to == addr
                    &&& after == RakClientTurn { intl: rest, ..c }
                },
                RakClientOutputView::SessionDatagram(buf) => {
                    &&& c.session is Some ==> (action matches RakClientAction::Forward(
                        RakSessionInput::Datagram(bytes, at),
                    ) && bytes@ == buf && at == now)
                    &&& c.session is None ==> action is Nothing
                    &&& after == RakClientTurn { intl: rest, ..c }
                },
                RakClientOutputView::SessionConnected(session) => {
                    &&& action is Connected
                    &&& after == RakClientTurn {
                        intl: rest,
                        session: Some(session),
                        events: c.events.push(RakClientEvent::Connected),
                        ..c
                    }
                },
                RakClientOutputView::Wait(_) => action is Nothing && after == RakClientTurn {
                    intl: rest,
                    ..c
                },
                RakClientOutputView::Pong(addr, message, asked) => {
                    &&& action is Nothing
                    &&& after == RakClientTurn {
                        intl: rest,
                        pongs: c.pongs.push((addr, message, asked)),
                        ..c
                    }
                },
            }
        }),
{
}

/// What an update does by its phase. The socket is read first, then the passing of time is seen
/// to, then the outputs, one after the other, and then the session is updated, if there is one.
/// The update is finished then, and stays so.
pub proof fn updates_go_by_phases<P>(
    c: RakClientTurn<P>,
    update: RakClientUpdate,
    after: RakClientTurn<P>,
    next: RakClientUpdate,
    work: RakClientWork,
)
    requires
        c.works(update, after, next, work),
    ensures
        next.now == update.now,
        match update.phase {
            RakPhase::Receiving(_) => work is Receive && after == c && next == update,
            RakPhase::Timing => {
                let (intl, r) = c.intl.handled(RakClientInput::Update(update.now));
                &&& after == RakClientTurn { intl, ..c }
                &&& next.phase is Polling
                &&& work matches RakClientWork::Timed(timed)
                &&& match timed {
                    Ok(_) => r == Ok::<RakClientStepView, RakClientError>(RakClientStepView::Done),
                    Err(e) => r == Err::<RakClientStepView, RakClientError>(e),
                }
            },
            RakPhase::Polling => if c.intl.output.len() > 0 {
                after == c.taken() && next == update && (work matches RakClientWork::Act(action)
                    && action@ == c.action(update.now))
            } else {
                &&& after == c
                &&& next.phase is Finished
                &&& c.session is Some ==> work == RakClientWork::Update(
                    RakSessionInput::Update(update.now),
                )
                &&& c.session is None ==> work is Finish
            },
            _ => work is Finish && after == c && next == update,
        },
{
}

/// Bytes from the server reach the session unchanged: once the outputs before are seen to, the
/// next thing to be done is to give them to the session.
pub proof fn bytes_reach_the_session<P>(
    c: RakClientTurn<P>,
    buf: Vec<u8>,
    remote: SocketAddr,
    update: RakClientUpdate,
    after: RakClientTurn<P>,
    next: RakClientUpdate,
    work: RakClientWork,
)
    requires
        c.intl.state == RakClientState::HandshakeCompleted(remote),
        c.intl.session is None,
        c.session is Some,
        c.intl.output.len() == 0,
        update.phase is Polling,
        (RakClientTurn {
            intl: c.intl.handled(RakClientInput::Datagram(buf, remote, update.now)).0,
            ..c
        }).works(update, after, next, work),
    ensures
        work matches RakClientWork::Act(
            RakClientAction::Forward(RakSessionInput::Datagram(bytes, at)),
        ) && bytes@ == buf@ && at == update.now,
        after.intl.output.len() == 0,
{
    let read = RakClientTurn {
        intl: c.intl.handled(RakClientInput::Datagram(buf, remote, update.now)).0,
        ..c
    };
    if let RakClientWork::Act(action) = work {
        outputs_are_acted_on(read, update.now, action);
    }
}

/// What the session puts out is kept in order, and if it says that it is over, the client is
/// without it and unconnected, and tells why, by the last word of it; all else stays.
pub proof fn sessions_are_drained<P>(
    c: RakClientTurn<P>,
    outputs: Seq<RakSessionOutput>,
    i: int,
)
    ensures
        ({
            let after = c.drained(outputs);
            &&& after.received == c.received + packets(outputs)
            &&& after.pongs == c.pongs
            &&& 0 <= i < outputs.len() && outputs[i] is Disconnected && (forall|j: int|
                i < j < outputs.len() ==> !((#[trigger] outputs[j]) is Disconnected)) ==> {
                &&& after.session is None
                &&& after.intl == RakClientModel {
                    state: RakClientState::Unconnected,
                    session: None,
                    ..c.intl
                }
                &&& after.events == c.events.push(
                    RakClientEvent::Disconnected { reason: outputs[i]->Disconnected_1 },
                )
            }
            &&& (forall|j: int|
                0 <= j < outputs.len() ==> !((#[trigger] outputs[j]) is Disconnected)) ==> after
                == RakClientTurn { received: after.received, ..c }
        }),
{
    last_end_counts(outputs, i);
}

/// The reason that the last end gives is the reason.
proof fn last_end_counts(outputs: Seq<RakSessionOutput>, i: int)
    ensures
        0 <= i < outputs.len() && outputs[i] is Disconnected && (forall|j: int|
            i < j < outputs.len() ==> !((#[trigger] outputs[j]) is Disconnected)) ==> end(outputs)
            == Some(outputs[i]->Disconnected_1),
        (forall|j: int| 0 <= j < outputs.len() ==> !((#[trigger] outputs[j]) is Disconnected))
            ==> end(outputs) is None,
    decreases outputs.len(),
{
    if outputs.len() > 0 {
        let rest = outputs.drop_last();
        let n = outputs.len() - 1;
        last_end_counts(rest, i);
        assert(outputs[n] == outputs.last());
        if forall|j: int| 0 <= j < outputs.len() ==> !((#[trigger] outputs[j]) is Disconnected) {
            assert(!(outputs[n] is Disconnected));
            assert forall|j: int| 0 <= j < rest.len() implies !((#[trigger] rest[j])
                is Disconnected) by {
                assert(rest[j] == outputs[j]);
            }
        }
        if 0 <= i < n && outputs[i] is Disconnected && (forall|j: int|
            i < j < outputs.len() ==> !((#[trigger] outputs[j]) is Disconnected)) {
            assert(!(outputs[n] is Disconnected));
            assert(rest[i] == outputs[i]);
            assert forall|j: int| i < j < rest.len() implies !((#[trigger] rest[j])
                is Disconnected) by {
                assert(rest[j] == outputs[j]);
            }
        }
    }
}

/// The packets of outputs that follow others follow the packets of those; a packet is one of
/// itself, and nothing else is one.
pub proof fn packets_keep_their_order(a: Seq<RakSessionOutput>, b: Seq<RakSessionOutput>)
    ensures
        packets(a + b) == packets(a) + packets(b),
        a.len() == 1 ==> packets(a) == match a[0] {
            RakSessionOutput::Packet(buf) => seq![buf@],
            _ => seq![],
        },
    decreases b.len(),
{
    if a.len() == 1 {
        assert(a.drop_last() =~= seq![]);
        assert(packets(a.drop_last()) =~= seq![]);
        assert(packets(a) =~= match a[0] {
            RakSessionOutput::Packet(buf) => seq![buf@],
            _ => seq![],
        });
    }
    if b.len() == 0 {
        assert(a + b =~= a);
        assert(packets(a) + packets(b) =~= packets(a));
    } else {
        packets_keep_their_order(a, b.drop_last());
        assert((a + b).drop_last() =~= a + b.drop_last());
        assert((a + b).last() == b.last());
        assert(packets(a + b) =~= packets(a) + packets(b));
    }
}

/// Running the protocol of the session changes the state of the protocol alone.
pub proof fn protocols_run_by_themselves<P>(c: RakClientTurn<P>, protocol: Option<P>)
    ensures
        c.with_protocol(protocol) == (RakClientTurn {
            session: match c.session {
                Some(session) => Some(RakSession { protocol, ..session }),
                None => None,
            },
            ..c
        }),
{
}

/// Connecting, asking and reading are what the inner client makes of them.
pub proof fn inner_client_is_told<P>(
    m: RakClientModel<P>,
    buf: Vec<u8>,
    addr: SocketAddr,
    now: SystemTime,
)
    ensures
        m.connects(addr, now).0 == m.handled(RakClientInput::Connect(addr, now)).0,
        m.pings(addr, now).0 == m.handled(RakClientInput::Ping(addr, now)).0,
        m.timed(now).0 == m.handled(RakClientInput::Update(now)).0,
        m.received(buf@, addr, now) == m.handled(RakClientInput::Datagram(buf, addr, now)),
{
}

/// The socket is read once less after each reading but one that finds nothing, which is the last,
/// as is the one for which no more are left.
pub proof fn readings_are_counted(n: usize, received: RakReceived, next: RakPhase, other: RakPhase)
    requires
        !(other is Receiving),
    ensures
        received is Nothing || n <= 1 ==> RakPhase::Receiving(n).after_read(received, next) == next,
        !(received is Nothing) && n > 1 ==> (RakPhase::Receiving(n).after_read(received, next)
            matches RakPhase::Receiving(left) && left == n - 1),
        other.after_read(received, next) == other,
{
}

/// What is kept is told byte for byte.
pub proof fn bytes_are_told(
    received: Seq<Vec<u8>>,
    pongs: Seq<(SocketAddr, Vec<u8>, SystemTime)>,
    action: RakClientAction,
)
    ensures
        plain_received(received).len() == received.len(),
        forall|i: int|
            0 <= i < received.len() ==> #[trigger] plain_received(received)[i] == received[i]@,
        plain_pongs(pongs).len() == pongs.len(),
        forall|i: int|
            0 <= i < pongs.len() ==> #[trigger] plain_pongs(pongs)[i] == (
                pongs[i].0,
                pongs[i].1@,
                pongs[i].2,
            ),
        match action {
            RakClientAction::SendTo(buf, addr) => action@ == RakClientActionView::SendTo(
                buf@,
                addr,
            ),
            RakClientAction::Forward(input) => action@ == RakClientActionView::Forward(input@),
            RakClientAction::Connected => action@ is Connected,
            RakClientAction::Nothing => action@ is Nothing,
        },
{
}

/// What an update does is what its phase asks for, and it begins by reading the socket, at most
/// 1024 times. What the socket gave is told to the inner client, byte for byte.
pub proof fn updates_do_what_is_asked<P>(
    a: &mut RakClient<P>,
    update: &mut RakClientUpdate,
    work: RakClientWork,
    other: &RakClient<P>,
    now: SystemTime,
    begun: RakClientUpdate,
    b: &mut RakClient<P>,
    reading: &mut RakClientUpdate,
    received: RakReceived,
    r: Result<RakClientStep, RakClientError>,
)
    requires
        call_ensures(RakClient::<P>::work, (a, update), work),
        call_ensures(RakClient::<P>::update, (other, now), begun),
        call_ensures(RakClient::<P>::received, (b, reading, received), r),
    ensures
        old(a)@.works(*old(update), final(a)@, *final(update), work),
        begun.now == now,
        begun.phase == RakPhase::Receiving(1024),
        final(reading).phase == old(reading).phase.after_read(received, RakPhase::Timing),
        final(reading).now == old(reading).now,
        received matches RakReceived::Datagram(buf, addr) ==> ({
            let (intl, result) = old(b)@.intl.handled(
                RakClientInput::Datagram(buf, addr, old(reading).now),
            );
            plain_result(r) == result && final(b)@ == (RakClientTurn { intl, ..old(b)@ })
        }),
        !(received is Datagram) ==> final(b)@ == old(b)@ && (r matches Ok(RakClientStep::Done)),
{
    if let RakReceived::Datagram(buf, addr) = received {
        inner_client_is_told(old(b)@.intl, buf, addr, old(reading).now);
    }
}

/// What was received, the answers of servers and what became of the session come out in the order
/// in which they came, each once. What the session puts out is kept, sent or heeded.
pub proof fn queues_come_out_in_order<P>(
    a: &mut RakClient<P>,
    packet: Option<Vec<u8>>,
    b: &mut RakClient<P>,
    pong: Option<(SocketAddr, Vec<u8>, SystemTime)>,
    c: &mut RakClient<P>,
    event: Option<RakClientEvent>,
    d: &mut RakClient<P>,
    outputs: Vec<RakSessionOutput>,
    sent: Vec<(Vec<u8>, SocketAddr)>,
)
    requires
        call_ensures(RakClient::<P>::recv, (a,), packet),
        call_ensures(RakClient::<P>::recv_pong, (b,), pong),
        call_ensures(RakClient::<P>::next_event, (c,), event),
        call_ensures(RakClient::<P>::drain, (d, outputs), sent),
    ensures
        packet is Some <==> old(a)@.received.len() > 0,
        packet matches Some(buf) ==> seq![buf@] + final(a)@.received == old(a)@.received,
        packet is None ==> final(a)@.received == old(a)@.received,
        final(a)@ == (RakClientTurn { received: final(a)@.received, ..old(a)@ }),
        pong is Some <==> old(b)@.pongs.len() > 0,
        pong matches Some((addr, message, asked)) ==> seq![(addr, message@, asked)]
            + final(b)@.pongs == old(b)@.pongs,
        pong is None ==> final(b)@.pongs == old(b)@.pongs,
        final(b)@ == (RakClientTurn { pongs: final(b)@.pongs, ..old(b)@ }),
        event is Some <==> old(c)@.events.len() > 0,
        event matches Some(event) ==> seq![event] + final(c)@.events == old(c)@.events,
        event is None ==> final(c)@.events == old(c)@.events,
        final(c)@ == (RakClientTurn { events: final(c)@.events, ..old(c)@ }),
        final(d)@ == old(d)@.drained(outputs@),
        plain_datagrams(sent@) == datagrams(outputs@),
{
    if let Some(buf) = packet {
        assert(seq![buf@] + old(a)@.received.drop_first() =~= old(a)@.received);
    }
    if let Some((addr, message, asked)) = pong {
        assert(seq![(addr, message@, asked)] + old(b)@.pongs.drop_first() =~= old(b)@.pongs);
    }
    if let Some(event) = event {
        assert(seq![event] + old(c)@.events.drop_first() =~= old(c)@.events);
    }
}

/// A client connects and asks as the inner client does. It is connected as long as it has a
/// session, and only then is there something to be given to that, as it is.
pub proof fn clients_do_what_they_are_told<P>(
    a: &mut RakClient<P>,
    b: &mut RakClient<P>,
    addr: SocketAddr,
    now: SystemTime,
    client: &RakClient<P>,
    connected: bool,
    buf: Vec<u8>,
    reliability: RakReliability,
    priority: RakPriority,
    sending: Result<RakSessionInput, RakSessionError>,
    ending: Option<RakSessionInput>,
)
    requires
        call_ensures(RakClient::<P>::connect, (a, addr, now), ()),
        call_ensures(RakClient::<P>::ping, (b, addr, now), ()),
        call_ensures(RakClient::<P>::is_connected, (client,), connected),
        call_ensures(RakClient::<P>::send, (client, buf, reliability, priority, now), sending),
        call_ensures(RakClient::<P>::disconnect, (client, now), ending),
    ensures
        final(a)@ == (RakClientTurn {
            intl: old(a)@.intl.handled(RakClientInput::Connect(addr, now)).0,
            ..old(a)@
        }),
        final(b)@ == (RakClientTurn {
            intl: old(b)@.intl.handled(RakClientInput::Ping(addr, now)).0,
            ..old(b)@
        }),
        connected <==> client@.session is Some,
        sending is Ok <==> client@.session is Some,
        sending matches Ok(input) ==> input@ == RakSessionInputView::Send(
            buf@,
            reliability,
            priority,
            now,
        ),
        sending matches Err(e) ==> e is Closed,
        ending is Some <==> client@.session is Some,
        ending matches Some(input) ==> input == RakSessionInput::Disconnect(now),
{
}

/// A new client has nothing but its settings; a client tells of its session, and of the one that
/// is to be connected, and passes on what the protocol of that does.
pub proof fn clients_tell_what_they_are<P>(
    config: RakClientConfig,
    now: SystemTime,
    created: RakClient<P>,
    client: &RakClient<P>,
    session: Option<&RakSession<P>>,
    pending: Option<&RakSession<P>>,
    msg: RakClientInput,
    admitted: bool,
    a: &mut RakClient<P>,
    b: &mut RakClient<P>,
    exchange: RakClientExchange,
    output: Option<RakSessionOutput>,
    result: Result<(), RakSessionError>,
    handled: Result<RakClientStep, RakClientError>,
    polled: Result<RakClientStep, RakClientError>,
)
    requires
        call_ensures(RakClient::<P>::new, (config, now), created),
        call_ensures(RakClient::<P>::session, (client,), session),
        call_ensures(RakClient::<P>::pending, (client,), pending),
        call_ensures(RakClient::<P>::admits, (client, &msg), admitted),
        call_ensures(RakClient::<P>::session_handled, (a, exchange, result), handled),
        call_ensures(RakClient::<P>::session_polled, (b, exchange, output), polled),
    ensures
        created@.intl == RakClientModel::<P>::created(config, now),
        created@.session is None,
        created@.received.len() == 0,
        created@.pongs.len() == 0,
        created@.events.len() == 0,
        session is Some <==> client@.session is Some,
        session matches Some(session) ==> client@.session == Some(*session),
        pending is Some <==> client@.intl.session is Some,
        pending matches Some(session) ==> client@.intl.session == Some(*session),
        admitted <==> client@.intl.admits(msg),
        (final(a)@.intl, plain_result(handled)) == old(a)@.intl.session_handled(exchange, result),
        final(a)@ == (RakClientTurn { intl: final(a)@.intl, ..old(a)@ }),
        (final(b)@.intl, plain_result(polled)) == old(b)@.intl.session_polled(exchange, output),
        final(b)@ == (RakClientTurn { intl: final(b)@.intl, ..old(b)@ }),
{
}

/// The protocol of the session, or of one that is to be connected, is lent to be run: what is made
/// of it is the session's, and nothing else changes.
pub proof fn protocols_are_lent<P>(
    connected: &mut RakClient<P>,
    lent: Option<&mut Option<P>>,
    connecting: &mut RakClient<P>,
    pending: Option<&mut Option<P>>,
)
    requires
        call_ensures(RakClient::<P>::protocol_mut, (connected,), lent),
        call_ensures(RakClient::<P>::pending_protocol_mut, (connecting,), pending),
    ensures
        lent is Some <==> old(connected)@.session is Some,
        match lent {
            Some(protocol) => old(connected)@.session matches Some(session) && *protocol
                == session.protocol && final(connected)@ == (RakClientTurn {
                session: Some(RakSession { protocol: *final(protocol), ..session }),
                ..old(connected)@
            }),
            None => final(connected)@ == old(connected)@,
        },
        pending is Some <==> old(connecting)@.intl.session is Some,
        match pending {
            Some(protocol) => old(connecting)@.intl.session matches Some(session) && *protocol
                == session.protocol && final(connecting)@ == (RakClientTurn {
                intl: RakClientModel {
                    session: Some(RakSession { protocol: *final(protocol), ..session }),
                    ..old(connecting)@.intl
                },
                ..old(connecting)@
            }),
            None => final(connecting)@ == old(connecting)@,
        },
{
}

} // verus!
