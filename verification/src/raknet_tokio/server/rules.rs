//! What the task of a server is for: what comes of each thing that happens to it, and of each
//! output of the server.

use crate::net::SocketAddr;
use crate::raknet_tokio::server::msg::RakServerMsg;
use crate::raknet_tokio::server::task::{
    RakServerTask, RakTaskAction, RakTaskEvent, RakTaskModel, RakTaskStep,
};
use crate::raknet_tokio::server::{RakServer, RakServerError as RakServerClosed, RakServerState};
use crate::server::config::RakServerConfig;
use crate::server::error::RakServerError;
use crate::server::input::{RakServerInput, RakServerStep};
use crate::server::laws::plain_result;
use crate::server::model::RakServerModel;
use crate::server::output::RakServerOutputView;
use crate::session::{
    RakSession, RakSessionError, RakSessionId, RakSessionInput, RakSessionOutput,
};
use crate::time::SystemTime;
use vstd::prelude::*;

verus! {

/// Whether the server was given the input, and the step is what it returned.
pub open spec fn server_is_given<P, H>(
    task: RakTaskModel<P, H>,
    input: RakServerInput,
    after: RakTaskModel<P, H>,
    step: RakTaskStep<P>,
) -> bool {
    &&& after.server == task.server.handled(input).0
    &&& step matches RakTaskStep::Serve(r) && plain_result(r) == task.server.handled(input).1
}

/// The server is given the datagrams that come, the time as it passes, the sessions that are over
/// and what its owner sets; a session that is over loses its handle, and no other does.
pub proof fn server_is_told<P, H>(
    task: RakTaskModel<P, H>,
    event: RakTaskEvent<P>,
    after: RakTaskModel<P, H>,
    step: RakTaskStep<P>,
)
    requires
        task.happens(event, after, step),
    ensures
        match event {
            RakTaskEvent::Tick(now) => server_is_given(
                task,
                RakServerInput::Update(now),
                after,
                step,
            ) && after.sessions == task.sessions,
            RakTaskEvent::Received(buf, addr, now) => server_is_given(
                task,
                RakServerInput::Datagram(buf, addr, now),
                after,
                step,
            ) && after.sessions == task.sessions,
            RakTaskEvent::Disconnected(id, now) => {
                &&& server_is_given(task, RakServerInput::RemoveSession(id, now), after, step)
                &&& !after.sessions.contains_key(id.0)
                &&& forall|k: u64|
                    #![trigger after.sessions.contains_key(k)]
                    k != id.0 ==> after.sessions.contains_key(k) == task.sessions.contains_key(k)
                        && after.sessions[k] == task.sessions[k]
            },
            RakTaskEvent::Message(RakServerMsg::SetMessage(message), _) => server_is_given(
                task,
                RakServerInput::SetMessage(message),
                after,
                step,
            ) && after.sessions == task.sessions,
            RakTaskEvent::Message(RakServerMsg::SetMaxConnections(n), _) => server_is_given(
                task,
                RakServerInput::SetMaxConnections(n),
                after,
                step,
            ) && after.sessions == task.sessions,
            _ => true,
        },
{
}

/// What a session sends is sent, byte for byte. A session that is taken over is handed out under
/// the next number of the server, and reached there from then on. When the owner stops the
/// server, every session that runs is told to end, each once, and nothing else happens.
pub proof fn sessions_are_served<P, H>(
    task: RakTaskModel<P, H>,
    event: RakTaskEvent<P>,
    after: RakTaskModel<P, H>,
    step: RakTaskStep<P>,
    k: u64,
)
    requires
        task.happens(event, after, step),
    ensures
        match event {
            RakTaskEvent::Sending(buf, addr) => after == task && (step
                matches RakTaskStep::SendTo(bytes, to) && bytes@ == buf@ && to == addr),
            RakTaskEvent::Message(RakServerMsg::AdoptSession(session), _) => {
                let id = RakSessionId(task.server.next_id);
                &&& step matches RakTaskStep::Adopted(out)
                &&& *out == RakSession { id, ..*session }
                &&& after.sessions == task.sessions
                &&& after.server == RakServerModel {
                    next_id: after.server.next_id,
                    session_map: task.server.session_map.insert(session.addr, id),
                    session_addr: task.server.session_addr.insert(id.0, session.addr),
                    ..task.server
                }
                &&& task.server.next_id < u64::MAX ==> after.server.next_id == task.server.next_id
                    + 1
            },
            RakTaskEvent::Message(RakServerMsg::Stop, now) => {
                &&& after == task
                &&& step matches RakTaskStep::Stop(list, input)
                &&& input == RakSessionInput::Disconnect(now)
                &&& task.sessions.contains_key(k) <==> list@.contains(RakSessionId(k))
                &&& list@.no_duplicates()
            },
            _ => true,
        },
{
}

/// What is to be done about an output of the server. Bytes are sent where they are to go. A
/// datagram goes, byte for byte, to the session that it is for, if that runs. A session that has
/// connected is handed out to be run, as it is.
pub proof fn outputs_are_acted_on<P, H>(
    task: RakTaskModel<P, H>,
    output: RakServerOutputView<P>,
    now: SystemTime,
    action: RakTaskAction<P>,
)
    requires
        task.acts(output, now, action),
    ensures
        match output {
            RakServerOutputView::SocketDatagram(buf, addr) => action
                matches RakTaskAction::SendTo(bytes, to) && bytes@ == buf && to == addr,
            RakServerOutputView::SessionDatagram(buf, id) => {
                &&& task.sessions.contains_key(id.0) ==> (action matches RakTaskAction::Forward(
                    to,
                    RakSessionInput::Datagram(bytes, at),
                ) && to == id && bytes@ == buf && at == now)
                &&& !task.sessions.contains_key(id.0) ==> (action matches RakTaskAction::Unknown(to)
                    && to == id)
            },
            RakServerOutputView::SessionConnected(session) => action
                matches RakTaskAction::Connected(out) && *out == session,
        },
{
}

/// The sessions that are put out as connected, in order.
pub open spec fn put_out_connected<P>(outputs: Seq<RakServerOutputView<P>>) -> Seq<RakSession<P>>
    decreases outputs.len(),
{
    if outputs.len() == 0 {
        seq![]
    } else {
        let before = put_out_connected(outputs.drop_last());
        match outputs.last() {
            RakServerOutputView::SessionConnected(session) => before.push(session),
            _ => before,
        }
    }
}

/// The sessions that the actions hand out to be run, in order.
pub open spec fn handed_out<P>(actions: Seq<RakTaskAction<P>>) -> Seq<RakSession<P>>
    decreases actions.len(),
{
    if actions.len() == 0 {
        seq![]
    } else {
        let before = handed_out(actions.drop_last());
        match actions.last() {
            RakTaskAction::Connected(session) => before.push(*session),
            _ => before,
        }
    }
}

/// The datagrams that are put out to be sent, in order.
pub open spec fn put_out_datagrams<P>(outputs: Seq<RakServerOutputView<P>>) -> Seq<
    (Seq<u8>, SocketAddr),
>
    decreases outputs.len(),
{
    if outputs.len() == 0 {
        seq![]
    } else {
        let before = put_out_datagrams(outputs.drop_last());
        match outputs.last() {
            RakServerOutputView::SocketDatagram(buf, addr) => before.push((buf, addr)),
            _ => before,
        }
    }
}

/// The datagrams that the actions send, in order.
pub open spec fn sent<P>(actions: Seq<RakTaskAction<P>>) -> Seq<(Seq<u8>, SocketAddr)>
    decreases actions.len(),
{
    if actions.len() == 0 {
        seq![]
    } else {
        let before = sent(actions.drop_last());
        match actions.last() {
            RakTaskAction::SendTo(buf, addr) => before.push((buf@, addr)),
            _ => before,
        }
    }
}

/// Over a whole run of outputs the sessions that are handed out to be run are exactly those that
/// the server put out as connected, in order, and what is sent is exactly what it put out to be
/// sent, in order, whatever sessions run meanwhile.
pub proof fn every_connected_session_is_handed_out<P, H>(
    tasks: Seq<RakTaskModel<P, H>>,
    outputs: Seq<RakServerOutputView<P>>,
    times: Seq<SystemTime>,
    actions: Seq<RakTaskAction<P>>,
)
    requires
        tasks.len() == outputs.len(),
        times.len() == outputs.len(),
        actions.len() == outputs.len(),
        forall|i: int|
            0 <= i < outputs.len() ==> (#[trigger] tasks[i]).acts(outputs[i], times[i], actions[i]),
    ensures
        handed_out(actions) == put_out_connected(outputs),
        sent(actions) == put_out_datagrams(outputs),
    decreases outputs.len(),
{
    if outputs.len() > 0 {
        let n = outputs.len() - 1;
        assert forall|i: int| 0 <= i < n implies (#[trigger] tasks.drop_last()[i]).acts(
            outputs.drop_last()[i],
            times.drop_last()[i],
            actions.drop_last()[i],
        ) by {
            assert(tasks[i].acts(outputs[i], times[i], actions[i]));
        }
        every_connected_session_is_handed_out(
            tasks.drop_last(),
            outputs.drop_last(),
            times.drop_last(),
            actions.drop_last(),
        );
        assert(tasks[n].acts(outputs[n], times[n], actions[n]));
        outputs_are_acted_on(tasks[n], outputs[n], times[n], actions[n]);
    }
}

/// A task deals with every event whose input the server can deal with, and with a session of
/// another server as long as there is a number for it.
pub proof fn only_numbers_keep_events_out<P, H>(task: RakTaskModel<P, H>, event: RakTaskEvent<P>)
    ensures
        task.admits(event) <==> match event {
            RakTaskEvent::Received(buf, addr, now) => task.server.admits(
                RakServerInput::Datagram(buf, addr, now),
            ),
            RakTaskEvent::Message(RakServerMsg::AdoptSession(_), _) => task.server.next_id
                < u64::MAX,
            _ => true,
        },
{
}

/// What the task does is what comes of what happens. What it polls is what the next output of the
/// server asks for: a session that the server puts out as connected is handed out to be run, and
/// the outputs after it wait.
pub proof fn tasks_do_what_is_asked<P, H>(
    task: &mut RakServerTask<P, H>,
    event: RakTaskEvent<P>,
    step: RakTaskStep<P>,
    polled: &mut RakServerTask<P, H>,
    now: SystemTime,
    action: Option<RakTaskAction<P>>,
)
    requires
        call_ensures(RakServerTask::<P, H>::handle, (task, event), step),
        call_ensures(RakServerTask::<P, H>::poll, (polled, now), action),
    ensures
        old(task)@.happens(event, final(task)@, step),
        action is Some <==> old(polled)@.server.output.len() > 0,
        action matches Some(action) ==> {
            let first = old(polled)@.server.output[0];
            &&& old(polled)@.acts(first, now, action)
            &&& seq![first] + final(polled)@.server.output == old(polled)@.server.output
            &&& first matches RakServerOutputView::SessionConnected(session) ==> (action
                matches RakTaskAction::Connected(out) && *out == session)
        },
        action is None ==> final(polled)@ == old(polled)@,
        final(polled)@.sessions == old(polled)@.sessions,
        final(polled)@.server == (RakServerModel {
            output: final(polled)@.server.output,
            ..old(polled)@.server
        }),
{
    if let Some(action) = action {
        let outputs = old(polled)@.server.output;
        assert(seq![outputs[0]] + outputs.drop_first() =~= outputs);
        outputs_are_acted_on(old(polled)@, outputs[0], now, action);
    }
}

/// A session that runs is reached by the handle that was last kept for it, and by none otherwise.
pub proof fn handles_are_kept<P, H>(
    task: &mut RakServerTask<P, H>,
    id: RakSessionId,
    handle: H,
    other: &RakServerTask<P, H>,
    found: Option<&H>,
    config: RakServerConfig,
    addr: SocketAddr,
    created: RakServerTask<P, H>,
    k: u64,
)
    requires
        call_ensures(RakServerTask::<P, H>::spawned, (task, id, handle), ()),
        call_ensures(RakServerTask::<P, H>::session, (other, id), found),
        call_ensures(RakServerTask::<P, H>::new, (config, addr), created),
    ensures
        final(task)@.sessions.contains_key(id.0) && final(task)@.sessions[id.0] == handle,
        k != id.0 ==> final(task)@.sessions.contains_key(k) == old(task)@.sessions.contains_key(k)
            && final(task)@.sessions[k] == old(task)@.sessions[k],
        final(task)@.server == old(task)@.server,
        found is Some <==> other@.sessions.contains_key(id.0),
        found matches Some(handle) ==> *handle == other@.sessions[id.0],
        created@.server == RakServerModel::<P>::created(config, addr),
        !created@.sessions.contains_key(k),
{
}

/// The task passes on what the protocol of a pending session does, and tells of that session and
/// of what can be dealt with as the server does.
pub proof fn tasks_follow_protocols<P, H>(
    task: &mut RakServerTask<P, H>,
    other: &RakServerTask<P, H>,
    addr: SocketAddr,
    output: Option<RakSessionOutput>,
    now: SystemTime,
    result: Result<(), RakSessionError>,
    polled: Result<RakServerStep, RakServerError>,
    handled: Result<RakServerStep, RakServerError>,
    pending: Option<&RakSession<P>>,
    event: RakTaskEvent<P>,
    admitted: bool,
)
    requires
        call_ensures(RakServerTask::<P, H>::session_polled, (task, addr, output, now), polled),
        call_ensures(RakServerTask::<P, H>::session_handled, (other, addr, result), handled),
        call_ensures(RakServerTask::<P, H>::pending, (other, addr), pending),
        call_ensures(RakServerTask::<P, H>::admits, (other, &event), admitted),
    ensures
        (final(task)@.server, plain_result(polled)) == old(task)@.server.session_polled(
            addr,
            output,
            now,
        ),
        final(task)@.sessions == old(task)@.sessions,
        result is Ok ==> (handled matches Ok(RakServerStep::Poll(to)) && to == addr),
        result matches Err(e) ==> (handled matches Err(RakServerError::Session(f)) && f == e),
        pending is Some <==> other@.server.pending.contains_key(addr),
        pending matches Some(session) ==> *session == other@.server.pending[addr].1,
        admitted <==> other@.admits(event),
{
}

/// A server that was not started yet keeps what its owner sets, to be started with. One that
/// runs is told by a message. One that was stopped is not concerned.
pub proof fn owners_set_what_they_want<P>(
    a: &mut RakServer,
    message: Vec<u8>,
    told_message: Option<RakServerMsg<P>>,
    b: &mut RakServer,
    n: usize,
    told_number: Option<RakServerMsg<P>>,
)
    requires
        call_ensures(RakServer::set_message::<P>, (a, message), told_message),
        call_ensures(RakServer::set_max_connections::<P>, (b, n), told_number),
    ensures
        old(a)@ matches RakServerState::Initialized(addr, config) ==> told_message is None && (
        final(a)@ matches RakServerState::Initialized(to, with) && to == addr && with.message
            == message && with == RakServerConfig { message, ..config }),
        old(a)@ is Running ==> final(a)@ is Running && (told_message
            matches Some(RakServerMsg::SetMessage(m)) && m == message),
        old(a)@ is Shutdown ==> final(a)@ is Shutdown && told_message is None,
        old(b)@ matches RakServerState::Initialized(addr, config) ==> told_number is None && (
        final(b)@ matches RakServerState::Initialized(to, with) && to == addr
            && with.max_connections == n && with == RakServerConfig {
            max_connections: n,
            ..config
        }),
        old(b)@ is Running ==> final(b)@ is Running && (told_number
            matches Some(RakServerMsg::SetMaxConnections(m)) && m == n),
        old(b)@ is Shutdown ==> final(b)@ is Shutdown && told_number is None,
{
}

/// A server is started once, where and with what it was made, and stopped once, while it runs.
pub proof fn servers_are_started_and_stopped_once<P>(
    addr: SocketAddr,
    config: RakServerConfig,
    created: RakServer,
    starting: &RakServer,
    at: Option<SocketAddr>,
    started: &mut RakServer,
    task: Option<(SocketAddr, RakServerConfig)>,
    stopped: &mut RakServer,
    told: Option<RakServerMsg<P>>,
)
    requires
        call_ensures(RakServer::new, (addr, config), created),
        call_ensures(RakServer::start, (starting,), at),
        call_ensures(RakServer::started, (started,), task),
        call_ensures(RakServer::stop::<P>, (stopped,), told),
    ensures
        created@ == RakServerState::Initialized(addr, config),
        starting@ matches RakServerState::Initialized(addr, _) ==> at == Some(addr),
        !(starting@ is Initialized) ==> at is None,
        old(started)@ matches RakServerState::Initialized(addr, config) ==> final(started)@
            is Running && task == Some((addr, config)),
        !(old(started)@ is Initialized) ==> final(started)@ == old(started)@ && task is None,
        old(stopped)@ is Running ==> final(stopped)@ is Shutdown && (told
            matches Some(RakServerMsg::Stop)),
        !(old(stopped)@ is Running) ==> final(stopped)@ == old(stopped)@ && told is None,
{
}

/// Only a server that runs takes over sessions, as they are, and hands out those that connect; one
/// that does not is closed, and so is one whose task has ended.
pub proof fn only_running_servers_have_sessions<P, S>(
    server: &RakServer,
    running: Result<(), RakServerClosed>,
    session: RakSession<P>,
    adopted: Result<RakServerMsg<P>, RakServerClosed>,
    handed: Option<S>,
    accepted: Result<S, RakServerClosed>,
)
    requires
        call_ensures(RakServer::running, (server,), running),
        call_ensures(RakServer::adopt::<P>, (server, session), adopted),
        call_ensures(RakServer::accept::<S>, (server, handed), accepted),
    ensures
        running is Ok <==> server@ is Running,
        adopted is Ok <==> server@ is Running,
        adopted matches Ok(msg) ==> (msg matches RakServerMsg::AdoptSession(out) && *out == session),
        accepted is Ok <==> server@ is Running && handed is Some,
        accepted matches Ok(out) ==> handed == Some(out),
{
}

/// The protocol of a session is lent to be run: what is made of it is the session's, and nothing
/// else changes.
pub proof fn protocols_are_lent<P, H>(
    task: &mut RakServerTask<P, H>,
    addr: SocketAddr,
    lent: Option<&mut Option<P>>,
    other: SocketAddr,
)
    requires
        call_ensures(RakServerTask::<P, H>::protocol_mut, (task, addr), lent),
        other != addr,
    ensures
        lent is Some <==> old(task)@.server.pending.contains_key(addr),
        match lent {
            Some(protocol) => *protocol == old(task)@.server.pending[addr].1.protocol && final(task)@.server.pending[addr] == (
                old(task)@.server.pending[addr].0,
                RakSession { protocol: *final(protocol), ..old(task)@.server.pending[addr].1 },
            ) && final(task)@ == (RakTaskModel {
                server: RakServerModel {
                    pending: final(task)@.server.pending,
                    ..old(task)@.server
                },
                ..old(task)@
            }),
            None => final(task)@ == old(task)@,
        },
        old(task)@.server.pending.contains_key(other) ==> final(task)@.server.pending[other] == old(
            task,
        )@.server.pending[other],
{
}

} // verus!
