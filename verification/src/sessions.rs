//! How connections come, wait, join and end, and what the server makes of what the transport
//! reports of them.

use crate::cache::SpaceView;
use crate::connection_state::ConnectionView;
use crate::data_types::{GetListDataView, SpaceDataView};
use crate::effect::EffectView;
use crate::error::{debug_text_of, error_text, Sim2hErrorView};
use crate::events::{
    event_emits, event_ok, event_result, event_state, events_emit, events_ok, events_state,
    verify_result, SignedWireMessageView, StreamEventView,
};
use crate::invariants::lemma_replay_connection;
use crate::keyed::{lemma_place, lemma_put, lookup, place_of};
use crate::rules::{
    all_wait, connect_state, disconnect_state, enter_state, in_limbo, join_emits, join_ok,
    join_result, join_state, leaves, logged_first, message_emits, message_ok, message_result,
    message_state, replay_emits, replay_state, server_only, settled_emits, waits, ServerState,
};
use crate::wire_message::{
    ClientToLib3hView, Lib3hToClientResponseView, Lib3hToClientView, WireErrorView,
    WireMessageView,
};
use vstd::prelude::*;

verus! {

/// A server to which nobody has connected has neither connections nor spaces.
pub proof fn law_nobody_connected(uri: Seq<char>, space: Seq<char>)
    ensures
        !ServerState::empty().connections.contains_key(uri),
        !ServerState::empty().spaces.contains_key(space),
        ServerState::empty().wf(),
{
}

/// The state of a connection is what the server has noted for it.
pub proof fn law_connection(s: ServerState, uri: Seq<char>, c: ConnectionView)
    ensures
        s.connection(uri) == Some(c) <==> s.connections.contains_key(uri) && s.connections[uri]
            == c,
        in_limbo(s, uri) <==> s.connections.contains_key(uri) && s.connections[uri] is Limbo,
{
}

/// An agent is found where its space lists it, and nowhere if the space does not exist.
pub proof fn law_found(s: ServerState, space: Seq<char>, agent: Seq<char>, uri: Seq<char>)
    requires
        s.wf(),
    ensures
        s.uri_of(space, agent) == Some(uri) <==> s.spaces.contains_key(space)
            && s.spaces[space].agents.contains((agent, uri)),
        s.spaces.contains_key(space) ==> s.space(space) == s.spaces[space],
        !s.spaces.contains_key(space) ==> s.space(space).agents.len() == 0 && s.space(
            space,
        ).aspects.len() == 0,
{
    if s.spaces.contains_key(space) {
        let agents = s.spaces[space].agents;
        if s.uri_of(space, agent) == Some(uri) {
            let i = place_of(agents, agent);
            assert(agents[i] == (agent, uri));
        }
        if agents.contains((agent, uri)) {
            let i = choose|i: int| 0 <= i < agents.len() && agents[i] == (agent, uri);
            lemma_place(agents, i);
        }
    }
}

/// A state is well formed exactly if whoever has joined a space has joined one that exists, no
/// ping and no attempt to join waits in limbo, and no space lists an agent or an aspect twice.
pub proof fn law_well_formed(s: ServerState)
    ensures
        s.wf() <==> {
            &&& forall|uri: Seq<char>|
                #![trigger s.connections[uri]]
                s.connections.contains_key(uri) ==> match s.connections[uri] {
                    ConnectionView::Joined { space, .. } => s.spaces.contains_key(space),
                    ConnectionView::Limbo { pending } => forall|i: int|
                        #![trigger pending[i]]
                        0 <= i < pending.len() ==> pending[i] != WireMessageView::Ping && !(
                        pending[i] matches WireMessageView::ClientToLib3h(request)
                            && request is JoinSpace),
                }
            &&& forall|space: Seq<char>| #[trigger]
                s.spaces.contains_key(space) ==> {
                    &&& forall|i: int, j: int|
                        0 <= i < j < s.spaces[space].agents.len()
                            ==> (#[trigger] s.spaces[space].agents[i]).0 != (
                        #[trigger] s.spaces[space].agents[j]).0
                    &&& s.spaces[space].aspects.no_duplicates()
                }
        },
{
    assert forall|uri: Seq<char>|
        #![trigger s.connections[uri]]
        s.connections.contains_key(uri) implies (s.connections[uri] matches ConnectionView::Limbo {
        pending,
    } ==> (all_wait(pending) <==> forall|i: int|
        #![trigger pending[i]]
        0 <= i < pending.len() ==> pending[i] != WireMessageView::Ping && !(
        pending[i] matches WireMessageView::ClientToLib3h(request) && request is JoinSpace))) by {
        if let ConnectionView::Limbo { pending } = s.connections[uri] {
            assert forall|i: int| 0 <= i < pending.len() implies (waits(#[trigger] pending[i])
                <==> pending[i] != WireMessageView::Ping && !(
            pending[i] matches WireMessageView::ClientToLib3h(request)
                && request is JoinSpace)) by {
                law_waits(pending[i]);
            }
        }
    }
}

/// Every message has to wait in limbo but a ping and an attempt to join.
pub proof fn law_waits(message: WireMessageView)
    ensures
        !waits(message) <==> message == WireMessageView::Ping || (
        message matches WireMessageView::ClientToLib3h(request) && request is JoinSpace),
{
}

/// A new connection is in limbo with nothing waiting; no other connection and no space changes.
pub proof fn law_connect(s: ServerState, uri: Seq<char>, other: Seq<char>)
    ensures
        connect_state(s, uri).connection(uri) == Some(
            ConnectionView::Limbo { pending: Seq::empty() },
        ),
        other != uri ==> connect_state(s, uri).connection(other) == s.connection(other),
        connect_state(s, uri).spaces == s.spaces,
{
}

/// Nobody but a connection in limbo can join: else the server says so, and nothing happens.
pub proof fn law_only_limbo_joins(
    s: ServerState,
    uri: Seq<char>,
    data: SpaceDataView,
    out: Seq<EffectView>,
)
    ensures
        s.connections.contains_key(uri) && s.connections[uri] is Limbo ==> join_result(s, uri)
            == Ok::<(), Sim2hErrorView>(()),
        !(s.connections.contains_key(uri) && s.connections[uri] is Limbo) ==> {
            &&& join_result(s, uri) == Err::<(), Sim2hErrorView>(Sim2hErrorView::NotInLimbo(uri))
            &&& join_state(s, uri, data) == s
            &&& join_emits(s, uri, data, out) <==> out.len() == 0
            &&& join_ok(s, uri, data)
        },
{
}

/// Whoever joins is first asked, at its connection, for the list of what it authored and for
/// that of what it holds.
pub proof fn law_joining_asks_for_lists(
    s: ServerState,
    uri: Seq<char>,
    data: SpaceDataView,
    out: Seq<EffectView>,
)
    requires
        s.connections.contains_key(uri),
        s.connections[uri] is Limbo,
        join_emits(s, uri, data, out),
    ensures
        ({
            let request = GetListDataView {
                space_address: data.space_address,
                provider_agent_id: data.agent_id,
                request_id: Seq::empty(),
            };
            &&& out.len() >= 2
            &&& out[0] == (EffectView::Send {
                agent: data.agent_id,
                uri,
                message: WireMessageView::Lib3hToClient(
                    Lib3hToClientView::HandleGetAuthoringEntryList(request),
                ),
                logged: true,
            })
            &&& out[1] == (EffectView::Send {
                agent: data.agent_id,
                uri,
                message: WireMessageView::Lib3hToClient(
                    Lib3hToClientView::HandleGetGossipingEntryList(request),
                ),
                logged: true,
            })
        }),
{
}

/// Where nothing waits, to join does no more than that: the connection is then the agent's in
/// that space, the space exists and lists the agent there, and all else is as it was.
pub proof fn law_join_with_nothing_waiting(
    s: ServerState,
    uri: Seq<char>,
    data: SpaceDataView,
    out: Seq<EffectView>,
    other: Seq<char>,
    agent: Seq<char>,
)
    requires
        s.wf(),
        s.connection(uri) == Some(ConnectionView::Limbo { pending: Seq::empty() }),
        join_emits(s, uri, data, out),
    ensures
        ({
            let after = join_state(s, uri, data);
            &&& out.len() == 2
            &&& after.connections == s.connections.insert(
                uri,
                ConnectionView::Joined { space: data.space_address, agent: data.agent_id },
            )
            &&& after.spaces.contains_key(other) <==> s.spaces.contains_key(other) || other
                == data.space_address
            &&& other != data.space_address ==> after.space(other) == s.space(other)
            &&& after.space(other).aspects == s.space(other).aspects
            &&& after.uri_of(other, agent) == if other == data.space_address && agent
                == data.agent_id {
                Some(uri)
            } else {
                s.uri_of(other, agent)
            }
        }),
{
    lemma_put(s.space(data.space_address).agents, data.agent_id, uri);
    assert(s.connections[uri] == (ConnectionView::Limbo { pending: Seq::empty() }));
    assert(out.skip(2).len() == 0);
}

/// What joining has done when a message waited last is what joining does without it, followed
/// by what the message does after joining: nothing more, less, or in another order.
pub proof fn law_last_waiting_is_served_last(
    s: ServerState,
    uri: Seq<char>,
    message: WireMessageView,
    data: SpaceDataView,
    out: Seq<EffectView>,
)
    requires
        s.wf(),
        in_limbo(s, uri),
        waits(message),
        join_emits(message_state(s, uri, message, data.agent_id), uri, data, out),
    ensures
        exists|k: int|
            #![trigger out.take(k)]
            0 <= k <= out.len() && join_emits(s, uri, data, out.take(k)) && message_emits(
                join_state(s, uri, data),
                uri,
                message,
                data.agent_id,
                out.skip(k),
            ),
{
    let signer = data.agent_id;
    let pending = s.connections[uri]->pending;
    let queued = message_state(s, uri, message, signer);
    let entered = enter_state(s, uri, data);
    let longer = pending.push(message);
    assert(enter_state(queued, uri, data) =~= entered);
    assert(queued.connections[uri] == (ConnectionView::Limbo { pending: longer }));
    assert(longer.drop_last() =~= pending);
    assert(longer.last() == message);
    let rest = out.skip(2);
    let k = choose|k: int|
        0 <= k <= rest.len() && replay_emits(
            entered,
            uri,
            longer.drop_last(),
            signer,
            #[trigger] rest.take(k),
        ) && logged_first(signer, uri, longer.last(), rest.skip(k)) && settled_emits(
            replay_state(entered, uri, longer.drop_last(), signer),
            uri,
            longer.last(),
            signer,
            rest.skip(k + 1),
        );
    lemma_put(s.space(data.space_address).agents, data.agent_id, uri);
    lemma_replay_connection(entered, uri, data.space_address, data.agent_id, pending);
    let first = out.take(k + 2);
    assert(first.skip(2) =~= rest.take(k));
    assert(first =~= crate::rules::enter_effects(uri, data) + first.skip(2));
    assert(out.skip(k + 2) =~= rest.skip(k));
    assert(out.skip(k + 2).skip(1) =~= rest.skip(k + 1));
}

/// A ping is answered by a pong, which is not logged, whatever the state; nothing else happens.
pub proof fn law_ping(
    s: ServerState,
    uri: Seq<char>,
    signer: Seq<char>,
    out: Seq<EffectView>,
)
    ensures
        message_result(s, uri, WireMessageView::Ping, signer) == Ok::<(), Sim2hErrorView>(()),
        message_state(s, uri, WireMessageView::Ping, signer) == s,
        message_ok(s, uri, WireMessageView::Ping, signer),
        message_emits(s, uri, WireMessageView::Ping, signer, out) <==> out == seq![
            EffectView::Send {
                agent: signer,
                uri,
                message: WireMessageView::Pong,
                logged: false,
            },
        ],
{
}

/// A message that is no ping is logged and refused where there is no connection, and where
/// another agent than its signer joined on the connection.
pub proof fn law_stranger_is_refused(
    s: ServerState,
    uri: Seq<char>,
    message: WireMessageView,
    signer: Seq<char>,
    out: Seq<EffectView>,
)
    requires
        message != WireMessageView::Ping,
        message_emits(s, uri, message, signer, out),
    ensures
        !s.connections.contains_key(uri) ==> message_result(s, uri, message, signer) == Err::<
            (),
            Sim2hErrorView,
        >(Sim2hErrorView::NoConnection(uri)),
        s.connections.contains_key(uri) && (s.connections[uri] matches ConnectionView::Joined {
            agent,
            ..
        } && agent != signer) ==> message_result(s, uri, message, signer) == Err::<
            (),
            Sim2hErrorView,
        >(Sim2hErrorView::SignerMismatch),
        !s.connections.contains_key(uri) || (s.connections[uri] matches ConnectionView::Joined {
            agent,
            ..
        } && agent != signer) ==> {
            &&& message_state(s, uri, message, signer) == s
            &&& out == seq![EffectView::LogIn { agent: signer, uri, message }]
        },
{
    if !s.connections.contains_key(uri) || (s.connections[uri] matches ConnectionView::Joined {
        agent,
        ..
    } && agent != signer) {
        assert(out.skip(1).len() == 0);
        assert(out =~= seq![EffectView::LogIn { agent: signer, uri, message }]);
    }
}

/// In limbo, whoever signs, a message that is neither a ping nor an attempt to join is answered
/// with success, logged, kept behind those that wait, and replied to by an error.
pub proof fn law_message_in_limbo(
    s: ServerState,
    uri: Seq<char>,
    pending: Seq<WireMessageView>,
    message: WireMessageView,
    signer: Seq<char>,
    out: Seq<EffectView>,
)
    requires
        s.connections.contains_key(uri),
        s.connections[uri] == (ConnectionView::Limbo { pending }),
        message != WireMessageView::Ping,
        !(message matches WireMessageView::ClientToLib3h(request) && request is JoinSpace),
        message_emits(s, uri, message, signer, out),
    ensures
        message_result(s, uri, message, signer) == Ok::<(), Sim2hErrorView>(()),
        message_ok(s, uri, message, signer),
        message_state(s, uri, message, signer).spaces == s.spaces,
        message_state(s, uri, message, signer).connections == s.connections.insert(
            uri,
            ConnectionView::Limbo { pending: pending.push(message) },
        ),
        out == seq![
            EffectView::LogIn { agent: signer, uri, message },
            EffectView::Send {
                agent: signer,
                uri,
                message: WireMessageView::Error(WireErrorView::MessageWhileInLimbo),
                logged: true,
            },
        ],
{
    assert(out.skip(1).len() == 1);
    assert(out[1] == out.skip(1)[0]);
}

/// The server can serve every message but these: of an agent that is in a space, what only the
/// server sends, and a list of what it holds where the space has no agents; and in limbo an
/// attempt to join, by the agent itself, where something waits that only the server sends and
/// that does not come after a request of the agent to leave that space.
pub proof fn law_message_can_be_served(
    s: ServerState,
    uri: Seq<char>,
    message: WireMessageView,
    signer: Seq<char>,
)
    requires
        s.wf(),
    ensures
        !message_ok(s, uri, message, signer) <==> match s.connection(uri) {
            None => false,
            Some(ConnectionView::Joined { space, agent }) => agent == signer && match message {
                WireMessageView::Lib3hToClient(_) => true,
                WireMessageView::ClientToLib3hResponse(_) => true,
                WireMessageView::Lib3hToClientResponse(
                    Lib3hToClientResponseView::HandleGetGossipingEntryListResult(data),
                ) => data.provider_agent_id == agent && data.space_address == space
                    && s.spaces[space].agents.len() == 0,
                _ => false,
            },
            Some(ConnectionView::Limbo { pending }) => match message {
                WireMessageView::ClientToLib3h(ClientToLib3hView::JoinSpace(data)) => data.agent_id
                    == signer && !join_ok(s, uri, data),
                _ => false,
            },
        },
{
    if let Some(ConnectionView::Joined { space, agent }) = s.connection(uri) {
        assert(s.connections[uri] is Joined);
        crate::conduct::law_joined_can_be_served(s, space, agent, message);
    }
}

/// The server can have an agent join unless something waits that only the server sends and that
/// does not come after a request of the agent to leave that space.
pub proof fn law_can_join(
    s: ServerState,
    uri: Seq<char>,
    pending: Seq<WireMessageView>,
    data: SpaceDataView,
)
    requires
        s.connection(uri) == Some(ConnectionView::Limbo { pending }),
    ensures
        !join_ok(s, uri, data) <==> exists|i: int|
            #![trigger pending[i]]
            0 <= i < pending.len() && (pending[i] is Lib3hToClient
                || pending[i] is ClientToLib3hResponse) && forall|j: int|
                #![trigger pending[j]]
                0 <= j < i ==> !(pending[j] matches WireMessageView::ClientToLib3h(
                    ClientToLib3hView::LeaveSpace(leaving),
                ) && leaving.agent_id == data.agent_id && leaving.space_address
                    == data.space_address),
{
    assert forall|i: int| 0 <= i < pending.len() implies (server_only(#[trigger] pending[i])
        <==> pending[i] is Lib3hToClient || pending[i] is ClientToLib3hResponse) && (leaves(
        pending[i],
        data.space_address,
        data.agent_id,
    ) <==> (pending[i] matches WireMessageView::ClientToLib3h(
        ClientToLib3hView::LeaveSpace(leaving),
    ) && leaving.agent_id == data.agent_id && leaving.space_address == data.space_address)) by {}
}

/// A payload gives a signer and a message exactly if it was taken apart, its signature fits and
/// it holds that message, of whatever kind. A payload that was not taken apart, or that holds no
/// message, is refused with the reason that was given; one whose signature does not fit is
/// refused for that, whatever it holds.
pub proof fn law_payload(
    received: Result<SignedWireMessageView, Seq<char>>,
    source: Seq<char>,
    message: WireMessageView,
)
    ensures
        verify_result(received) == Ok::<(Seq<char>, WireMessageView), Sim2hErrorView>(
            (source, message),
        ) <==> (received matches Ok(signed) && signed.verified && signed.source == source
            && signed.payload == Ok::<WireMessageView, Seq<char>>(message)),
        received matches Err(text) ==> verify_result(received) == Err::<
            (Seq<char>, WireMessageView),
            Sim2hErrorView,
        >(Sim2hErrorView::Payload(text)),
        received matches Ok(signed) && !signed.verified ==> verify_result(received) == Err::<
            (Seq<char>, WireMessageView),
            Sim2hErrorView,
        >(Sim2hErrorView::VerifyFailed),
        received matches Ok(signed) && signed.verified && signed.payload is Err ==> verify_result(
            received,
        ) == Err::<(Seq<char>, WireMessageView), Sim2hErrorView>(
            Sim2hErrorView::Payload(received->Ok_0.payload->Err_0),
        ),
{
}

/// To receive a payload whose signature fits and that holds a message, of whatever kind, leads
/// to exactly what that message leads to when the signer sends it on that connection.
pub proof fn law_received_message(
    s: ServerState,
    uri: Seq<char>,
    signed: SignedWireMessageView,
    message: WireMessageView,
    out: Seq<EffectView>,
)
    requires
        signed.verified,
        signed.payload == Ok::<WireMessageView, Seq<char>>(message),
    ensures
        ({
            let event = StreamEventView::ReceivedData(uri, Ok(signed));
            &&& event_result(s, event) == message_result(s, uri, message, signed.source)
            &&& event_state(s, event) == message_state(s, uri, message, signed.source)
            &&& event_emits(s, event, out) <==> message_emits(s, uri, message, signed.source, out)
            &&& event_ok(s, event) <==> message_ok(s, uri, message, signed.source)
        }),
{
}

/// To receive a payload that is not sound changes nothing and has nothing logged or sent, and
/// is answered for by the error that says what is wrong with it.
pub proof fn law_unsound_payload(
    s: ServerState,
    uri: Seq<char>,
    received: Result<SignedWireMessageView, Seq<char>>,
    out: Seq<EffectView>,
)
    requires
        received matches Ok(signed) ==> !signed.verified || signed.payload is Err,
    ensures
        ({
            let event = StreamEventView::ReceivedData(uri, received);
            &&& event_state(s, event) == s
            &&& event_emits(s, event, out) <==> out.len() == 0
            &&& event_ok(s, event)
            &&& event_result(s, event) == Err::<(), Sim2hErrorView>(
                match received {
                    Err(text) => Sim2hErrorView::Payload(text),
                    Ok(signed) => if signed.verified {
                        Sim2hErrorView::Payload(signed.payload->Err_0)
                    } else {
                        Sim2hErrorView::VerifyFailed
                    },
                },
            )
        }),
{
}

/// That somebody connects puts the connection into limbo, that a connection closes ends it, and
/// the other reports of the transport change nothing. None of them has anything sent, and the
/// server can take in each.
pub proof fn law_connection_events(
    s: ServerState,
    uri: Seq<char>,
    text: Seq<char>,
    event: StreamEventView,
    out: Seq<EffectView>,
)
    requires
        event == StreamEventView::IncomingConnectionEstablished(uri) || event
            == StreamEventView::ConnectionClosed(uri) || event == StreamEventView::ConnectResult(
            uri,
            text,
        ) || event == StreamEventView::ErrorOccured(uri, text),
    ensures
        event_result(s, event) == Ok::<(), Sim2hErrorView>(()),
        event_ok(s, event),
        event_emits(s, event, out) <==> out.len() == 0,
        event is IncomingConnectionEstablished ==> event_state(s, event) == connect_state(s, uri),
        event is ConnectionClosed ==> event_state(s, event) == disconnect_state(s, uri),
        event is ConnectResult || event is ErrorOccured ==> event_state(s, event) == s,
{
}

/// Events are taken in one after the other: no events lead to nothing, and one more event leads
/// to what it leads to after those before it, whatever became of them.
pub proof fn law_events_in_turn(
    s: ServerState,
    events: Seq<StreamEventView>,
    event: StreamEventView,
    out: Seq<EffectView>,
)
    ensures
        events_state(s, Seq::empty()) == s,
        events_emit(s, Seq::empty(), out) <==> out.len() == 0,
        events_ok(s, Seq::empty()),
        events_state(s, events.push(event)) == event_state(events_state(s, events), event),
        events_emit(s, events.push(event), out) <==> exists|k: int|
            #![trigger out.take(k)]
            0 <= k <= out.len() && events_emit(s, events, out.take(k)) && event_emits(
                events_state(s, events),
                event,
                out.skip(k),
            ),
        events_ok(s, events.push(event)) <==> events_ok(s, events) && event_ok(
            events_state(s, events),
            event,
        ),
{
    let longer = events.push(event);
    assert(longer.drop_last() =~= events);
    assert(longer.last() == event);
    assert(longer.take(events.len() as int) =~= events);
    assert(longer[events.len() as int] == event);
    assert forall|i: int| 0 <= i < events.len() implies longer.take(i) == events.take(i)
        && #[trigger] longer[i] == events[i] by {
        assert(longer.take(i) =~= events.take(i));
    }
    if events_ok(s, longer) {
        assert forall|i: int| 0 <= i < events.len() implies event_ok(
            events_state(s, events.take(i)),
            #[trigger] events[i],
        ) by {
            assert(longer[i] == events[i]);
        }
    }
    if events_ok(s, events) && event_ok(events_state(s, events), event) {
        assert forall|i: int| 0 <= i < longer.len() implies event_ok(
            events_state(s, longer.take(i)),
            #[trigger] longer[i],
        ) by {
            if i < events.len() {
                assert(event_ok(events_state(s, events.take(i)), events[i]));
            }
        }
    }
}

/// An agent that enters a space is found at its connection, one that leaves is not found, nor
/// is anybody at a connection that is removed; the others, and the aspects, stay.
pub proof fn law_space_agents(
    space: SpaceView,
    agent: Seq<char>,
    uri: Seq<char>,
    other: Seq<char>,
)
    requires
        space.wf(),
    ensures
        space.with_agent(agent, uri).wf(),
        space.with_agent(agent, uri).aspects == space.aspects,
        lookup(space.with_agent(agent, uri).agents, other) == if other == agent {
            Some(uri)
        } else {
            lookup(space.agents, other)
        },
        space.without_agent(agent).wf(),
        space.without_agent(agent).aspects == space.aspects,
        lookup(space.without_agent(agent).agents, other) == if other == agent {
            None
        } else {
            lookup(space.agents, other)
        },
        space.without_uri(uri).wf(),
        space.without_uri(uri).aspects == space.aspects,
        lookup(space.without_uri(uri).agents, other) == if lookup(space.agents, other) == Some(
            uri,
        ) {
            None
        } else {
            lookup(space.agents, other)
        },
{
    lemma_put(space.agents, agent, uri);
    crate::keyed::lemma_without(space.agents, agent);
    crate::keyed::lemma_filter(space.agents, crate::cache::is_elsewhere(uri));
}

/// An error that names a connection or an agent says so with the name as it is, one that passes
/// a reason on says just that, and the others always say the same.
pub proof fn law_error_texts(text: Seq<char>)
    ensures
        error_text(Sim2hErrorView::VerifyFailed) == "message verification failed"@,
        error_text(Sim2hErrorView::SignerMismatch) == "message signer mismatch"@,
        error_text(Sim2hErrorView::SpaceMismatch) == "space/agent id mismatch"@,
        error_text(Sim2hErrorView::NoConnection(text)) == "no connection for "@ + text,
        error_text(Sim2hErrorView::NotInLimbo(text)) == "no agent found in limbo at "@ + text
            + " "@,
        error_text(Sim2hErrorView::NotJoined(text)) == "no joined agent found at "@ + text + " "@,
        error_text(Sim2hErrorView::UnvalidatedProxyAgent(text)) == "unvalidated proxy agent "@
            + text,
        error_text(Sim2hErrorView::Payload(text)) == text,
        error_text(Sim2hErrorView::Transport(text)) == text,
        error_text(Sim2hErrorView::JoinNotProxied)
            == "join message should have been processed elsewhere and can't be proxied"@,
        error_text(Sim2hErrorView::NoSuchSpace) == "No such space"@,
{
}

/// The error about a message that the server has no use for gives the message: under its kind
/// and with the text that was kept of it, or as it prints.
pub proof fn law_not_implemented_text(message: WireMessageView)
    ensures
        error_text(Sim2hErrorView::NotImplemented(message)) == "Message not implemented: "@ + (
        match message {
            WireMessageView::Error(WireErrorView::MessageWhileInLimbo) => {
                "Err(MessageWhileInLimbo)"@
            },
            WireMessageView::Error(WireErrorView::Other(text)) => "Err("@ + text + ")"@,
            WireMessageView::ClientToLib3h(ClientToLib3hView::Other(text)) => {
                "ClientToLib3h("@ + text + ")"@
            },
            WireMessageView::ClientToLib3hResponse(text) => "ClientToLib3hResponse("@ + text
                + ")"@,
            WireMessageView::Lib3hToClient(Lib3hToClientView::Other(text)) => {
                "Lib3hToClient("@ + text + ")"@
            },
            WireMessageView::Lib3hToClientResponse(Lib3hToClientResponseView::Other(text)) => {
                "Lib3hToClientResponse("@ + text + ")"@
            },
            _ => debug_text_of(message),
        }),
{
}

} // verus!
