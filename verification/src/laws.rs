//! What holds of the server as a whole.

use crate::cache::{is_elsewhere, is_other_than, SpaceView};
use crate::connection_state::ConnectionView;
use crate::data_types::{
    DirectMessageDataView, EntryAspectDataView, EntryDataView, ProvidedEntryDataView,
    SpaceDataView, StoreEntryAspectDataView,
};
use crate::effect::{sent, EffectView};
use crate::error::Sim2hErrorView;
use crate::events::{events_state, StreamEventView};
use crate::invariants::{
    lemma_abandoned, lemma_connect_wf, lemma_disconnect_wf, lemma_enter_wf, lemma_message_wf,
    lemma_others_nonempty, lemma_replay_connection, lemma_replay_step, lemma_replay_wf,
    lemma_with_entry_aspects,
};
use crate::keyed::{
    distinct_keys, has_key, lemma_filter, lemma_filter_all, lemma_place, lemma_put,
    lemma_without_put, lookup, place_of,
};
use crate::rules::{
    abandoned, aspect_addresses, broadcast_effects, connect_state, disconnect_state, enter_effects,
    enter_state, in_limbo, join_emits, join_result, join_state, joined_emits, joined_result,
    joined_state, leaves, logged_first, message_emits, message_ok, message_result, message_state,
    publish_state, replay_emits, replay_state, server_only, settled_emits, settled_state,
    store_effects, store_message, waits, ServerState,
};
use crate::wire_message::{
    ClientToLib3hView, Lib3hToClientResponseView, Lib3hToClientView, WireErrorView,
    WireMessageView,
};
use vstd::prelude::*;

verus! {

/// Every event keeps the state well formed.
pub proof fn law_events_keep_wf(s: ServerState, events: Seq<StreamEventView>)
    requires
        s.wf(),
    ensures
        events_state(s, events).wf(),
    decreases events.len(),
{
    if events.len() > 0 {
        let before = events_state(s, events.drop_last());
        law_events_keep_wf(s, events.drop_last());
        assert forall|uri: Seq<char>, m: WireMessageView, signer: Seq<char>| #[trigger]
            message_state(before, uri, m, signer).wf() by {
            lemma_message_wf(before, uri, m, signer);
        }
        assert forall|uri: Seq<char>| #[trigger] connect_state(before, uri).wf() by {
            lemma_connect_wf(before, uri);
        }
        assert forall|uri: Seq<char>| #[trigger] disconnect_state(before, uri).wf() by {
            lemma_disconnect_wf(before, uri);
        }
    }
}

/// A message that the server refuses changes nothing that it knows, and brings about nothing
/// but the log entry of the message.
pub proof fn law_refused_message_changes_nothing(
    s: ServerState,
    uri: Seq<char>,
    message: WireMessageView,
    signer: Seq<char>,
    out: Seq<EffectView>,
)
    requires
        message_result(s, uri, message, signer) is Err,
        message_emits(s, uri, message, signer, out),
    ensures
        message_state(s, uri, message, signer) == s,
        out == seq![EffectView::LogIn { agent: signer, uri, message }],
{
    assert(out.skip(1).len() == 0);
    assert(out =~= seq![EffectView::LogIn { agent: signer, uri, message }]);
}

/// A ping is answered by a pong, whoever sends it and from wherever, and changes nothing.
pub proof fn law_ping_is_answered(
    s: ServerState,
    uri: Seq<char>,
    signer: Seq<char>,
    out: Seq<EffectView>,
)
    requires
        message_emits(s, uri, WireMessageView::Ping, signer, out),
    ensures
        message_result(s, uri, WireMessageView::Ping, signer) is Ok,
        message_state(s, uri, WireMessageView::Ping, signer) == s,
        out == seq![sent(signer, uri, WireMessageView::Pong)],
{
}

/// Whoever signs for a connection but is not the agent that joined on it is refused.
pub proof fn law_foreign_signer_is_refused(
    s: ServerState,
    uri: Seq<char>,
    message: WireMessageView,
    signer: Seq<char>,
)
    requires
        s.connection(uri) matches Some(ConnectionView::Joined { agent, .. }) && agent != signer,
        !(message is Ping),
    ensures
        message_result(s, uri, message, signer) == Err::<(), Sim2hErrorView>(
            Sim2hErrorView::SignerMismatch,
        ),
        message_state(s, uri, message, signer) == s,
{
}

/// The message by which an agent joins a space.
pub open spec fn join_message(data: SpaceDataView) -> WireMessageView {
    WireMessageView::ClientToLib3h(ClientToLib3hView::JoinSpace(data))
}

/// No message that comes in limbo is lost: to send it before joining leads to the same as to
/// send it after.
pub proof fn law_limbo_loses_nothing(
    s: ServerState,
    uri: Seq<char>,
    message: WireMessageView,
    data: SpaceDataView,
)
    requires
        s.wf(),
        in_limbo(s, uri),
        waits(message),
    ensures
        ({
            let signer = data.agent_id;
            let join = join_message(data);
            message_state(message_state(s, uri, message, signer), uri, join, signer)
                == message_state(message_state(s, uri, join, signer), uri, message, signer)
        }),
{
    let signer = data.agent_id;
    let pending = s.connections[uri]->pending;
    let queued = message_state(s, uri, message, signer);
    let entered = enter_state(s, uri, data);
    assert(enter_state(queued, uri, data) =~= entered);
    assert(pending.push(message).drop_last() =~= pending);
    lemma_put(s.space(data.space_address).agents, data.agent_id, uri);
    lemma_replay_connection(entered, uri, data.space_address, data.agent_id, pending);
}

/// What a message brings about when it is sent after joining, joining brings about when it was
/// sent before: the message that waited in limbo is served last.
pub proof fn law_limbo_serves_later(
    s: ServerState,
    uri: Seq<char>,
    message: WireMessageView,
    data: SpaceDataView,
    joining: Seq<EffectView>,
    serving: Seq<EffectView>,
)
    requires
        s.wf(),
        in_limbo(s, uri),
        waits(message),
        join_emits(s, uri, data, joining),
        message_emits(join_state(s, uri, data), uri, message, data.agent_id, serving),
    ensures
        join_emits(
            message_state(s, uri, message, data.agent_id),
            uri,
            data,
            joining + serving,
        ),
{
    let signer = data.agent_id;
    let pending = s.connections[uri]->pending;
    let queued = message_state(s, uri, message, signer);
    let entered = enter_state(s, uri, data);
    assert(enter_state(queued, uri, data) =~= entered);
    lemma_put(s.space(data.space_address).agents, data.agent_id, uri);
    lemma_replay_connection(entered, uri, data.space_address, data.agent_id, pending);
    let out = (joining + serving).skip(2);
    let k = joining.len() - 2;
    assert(out.take(k) =~= joining.skip(2));
    assert(out.skip(k) =~= serving);
    assert(out.skip(k + 1) =~= serving.skip(1));
    lemma_replay_step(entered, uri, pending, message, signer, out, k);
    assert(joining + serving =~= enter_effects(uri, data) + out);
}

/// In limbo, a message that has to wait is kept as the last of those that wait, is answered by
/// an error, and changes neither a space nor another connection.
pub proof fn law_limbo_keeps_messages(
    s: ServerState,
    uri: Seq<char>,
    message: WireMessageView,
    signer: Seq<char>,
    out: Seq<EffectView>,
)
    requires
        s.wf(),
        in_limbo(s, uri),
        waits(message),
        message_emits(s, uri, message, signer, out),
    ensures
        ({
            let after = message_state(s, uri, message, signer);
            &&& after.spaces == s.spaces
            &&& after.connections == s.connections.insert(
                uri,
                ConnectionView::Limbo { pending: s.connections[uri]->pending.push(message) },
            )
        }),
        out == seq![
            EffectView::LogIn { agent: signer, uri, message },
            sent(signer, uri, WireMessageView::Error(WireErrorView::MessageWhileInLimbo)),
        ],
{
    let reply = sent(signer, uri, WireMessageView::Error(WireErrorView::MessageWhileInLimbo));
    assert(out.skip(1) == seq![reply]);
    assert(out[1] == out.skip(1)[0]);
    assert(out =~= seq![EffectView::LogIn { agent: signer, uri, message }, reply]);
}

/// Whoever joins a space, and does not have a request to leave it waiting, is found there
/// afterwards.
pub proof fn law_joined_agent_is_found(s: ServerState, uri: Seq<char>, data: SpaceDataView)
    requires
        s.wf(),
        in_limbo(s, uri),
        forall|j: int|
            0 <= j < s.connections[uri]->pending.len() ==> !leaves(
                #[trigger] s.connections[uri]->pending[j],
                data.space_address,
                data.agent_id,
            ),
    ensures
        ({
            let after = message_state(s, uri, join_message(data), data.agent_id);
            &&& after.connection(uri) == Some(
                ConnectionView::Joined { space: data.space_address, agent: data.agent_id },
            )
            &&& after.uri_of(data.space_address, data.agent_id) == Some(uri)
        }),
{
    let pending = s.connections[uri]->pending;
    let entered = enter_state(s, uri, data);
    lemma_put(s.space(data.space_address).agents, data.agent_id, uri);
    lemma_replay_connection(entered, uri, data.space_address, data.agent_id, pending);
}

/// When a connection ends, it is gone; its agent is no longer found in the space, and nobody is
/// found at the connection in any space; and nobody else is affected.
pub proof fn law_disconnected_agent_is_gone(s: ServerState, uri: Seq<char>)
    requires
        s.wf(),
    ensures
        ({
            let after = disconnect_state(s, uri);
            &&& after.connection(uri) is None
            &&& forall|u: Seq<char>|
                u != uri ==> #[trigger] after.connection(u) == s.connection(u)
            &&& forall|space: Seq<char>, agent: Seq<char>| #[trigger]
                after.uri_of(space, agent) == if s.uri_of(space, agent) == Some(uri)
                    || s.connection(uri) == Some(ConnectionView::Joined { space, agent }) {
                    None
                } else {
                    s.uri_of(space, agent)
                }
            &&& nobody_found_at(after, uri)
            &&& forall|space: Seq<char>| #[trigger]
                after.spaces.contains_key(space) == s.spaces.contains_key(space)
            &&& forall|space: Seq<char>| #[trigger]
                after.space(space).aspects == s.space(space).aspects
        }),
{
    let after = disconnect_state(s, uri);
    assert forall|space: Seq<char>, agent: Seq<char>| #[trigger]
        after.uri_of(space, agent) == if s.uri_of(space, agent) == Some(uri) || s.connection(uri)
        == Some(ConnectionView::Joined { space, agent }) {
        None
    } else {
        s.uri_of(space, agent)
    } by {
        if s.spaces.contains_key(space) {
            lemma_abandoned(s, uri, space);
            assert(after.uri_of(space, agent) == lookup(
                abandoned(s, uri, space).agents,
                agent,
            ));
        }
    }
}

/// No space has anybody found at the connection `uri`.
pub open spec fn nobody_found_at(s: ServerState, uri: Seq<char>) -> bool {
    forall|space: Seq<char>, agent: Seq<char>| #[trigger] s.uri_of(space, agent) != Some(uri)
}

proof fn lemma_nobody_to_remove(s: ServerState, uri: Seq<char>, space: Seq<char>)
    requires
        s.wf(),
        nobody_found_at(s, uri),
    ensures
        s.space(space).without_uri(uri) == s.space(space),
{
    let agents = s.space(space).agents;
    let keep = is_elsewhere(uri);
    assert forall|i: int| 0 <= i < agents.len() implies keep(#[trigger] agents[i]) by {
        lemma_place(agents, i);
        assert(s.uri_of(space, agents[i].0) == Some(agents[i].1));
    }
    lemma_filter_all(agents, keep);
}

/// To leave a space undoes to join it, but that the space exists from then on, where the agent
/// was not in the space and nobody was found at the connection.
pub proof fn law_disconnect_undoes_enter(s: ServerState, uri: Seq<char>, data: SpaceDataView)
    requires
        s.wf(),
        !has_key(s.space(data.space_address).agents, data.agent_id),
        nobody_found_at(s, uri),
    ensures
        ({
            let after = disconnect_state(enter_state(s, uri, data), uri);
            &&& after.connections == s.connections.remove(uri)
            &&& after.spaces == s.spaces.insert(data.space_address, s.space(data.space_address))
        }),
{
    let entered = enter_state(s, uri, data);
    lemma_without_put(s.space(data.space_address).agents, data.agent_id, uri);
    let after = disconnect_state(entered, uri);
    assert(after.connections =~= s.connections.remove(uri));
    assert forall|space: Seq<char>| #[trigger]
        entered.spaces.contains_key(space) implies after.spaces[space] == s.space(space) by {
        lemma_nobody_to_remove(s, uri, space);
        if space == data.space_address {
            assert(entered.space(space).without_agent(data.agent_id) =~= s.space(space));
        }
    }
    assert(after.spaces =~= s.spaces.insert(data.space_address, s.space(data.space_address)));
}

/// Everybody who is found in a space is found at a connection that stands.
pub open spec fn all_found_connected(s: ServerState) -> bool {
    forall|space: Seq<char>, agent: Seq<char>|
        #![trigger s.uri_of(space, agent)]
        s.uri_of(space, agent) matches Some(uri) ==> s.connections.contains_key(uri)
}

proof fn lemma_disconnect_keeps_connected(s: ServerState, uri: Seq<char>)
    requires
        s.wf(),
        all_found_connected(s),
    ensures
        all_found_connected(disconnect_state(s, uri)),
{
    law_disconnected_agent_is_gone(s, uri);
    let after = disconnect_state(s, uri);
    assert forall|space: Seq<char>, agent: Seq<char>|
        #![trigger after.uri_of(space, agent)]
        after.uri_of(space, agent) matches Some(u) implies after.connections.contains_key(
        after.uri_of(space, agent)->0,
    ) by {
        assert(s.uri_of(space, agent) == after.uri_of(space, agent));
    }
}

proof fn lemma_settled_keeps_connected(
    s: ServerState,
    uri: Seq<char>,
    message: WireMessageView,
    signer: Seq<char>,
)
    requires
        s.wf(),
        all_found_connected(s),
    ensures
        all_found_connected(settled_state(s, uri, message, signer)),
{
    lemma_disconnect_keeps_connected(s, uri);
    let after = settled_state(s, uri, message, signer);
    if after != disconnect_state(s, uri) {
        assert forall|space: Seq<char>, agent: Seq<char>| #[trigger]
            after.uri_of(space, agent) == s.uri_of(space, agent) by {}
    }
}

proof fn lemma_replay_keeps_connected(
    s: ServerState,
    uri: Seq<char>,
    messages: Seq<WireMessageView>,
    signer: Seq<char>,
)
    requires
        s.wf(),
        all_found_connected(s),
    ensures
        all_found_connected(replay_state(s, uri, messages, signer)),
    decreases messages.len(),
{
    if messages.len() > 0 {
        let earlier = messages.drop_last();
        lemma_replay_keeps_connected(s, uri, earlier, signer);
        lemma_replay_wf(s, uri, earlier, signer);
        lemma_settled_keeps_connected(
            replay_state(s, uri, earlier, signer),
            uri,
            messages.last(),
            signer,
        );
    }
}

proof fn lemma_message_keeps_connected(
    s: ServerState,
    uri: Seq<char>,
    message: WireMessageView,
    signer: Seq<char>,
)
    requires
        s.wf(),
        all_found_connected(s),
    ensures
        all_found_connected(message_state(s, uri, message, signer)),
{
    match s.connection(uri) {
        Some(ConnectionView::Limbo { pending }) => {
            match message {
                WireMessageView::ClientToLib3h(ClientToLib3hView::JoinSpace(data)) => {
                    let entered = enter_state(s, uri, data);
                    lemma_enter_wf(s, uri, data);
                    lemma_put(s.space(data.space_address).agents, data.agent_id, uri);
                    assert forall|space: Seq<char>, agent: Seq<char>|
                        #![trigger entered.uri_of(space, agent)]
                        entered.uri_of(space, agent) matches Some(
                        u,
                    ) implies entered.connections.contains_key(
                        entered.uri_of(space, agent)->0,
                    ) by {
                        if !(space == data.space_address && agent == data.agent_id) {
                            assert(entered.uri_of(space, agent) == s.uri_of(space, agent));
                        }
                    }
                    lemma_replay_keeps_connected(entered, uri, pending, data.agent_id);
                },
                _ => {
                    let after = message_state(s, uri, message, signer);
                    assert forall|space: Seq<char>, agent: Seq<char>| #[trigger]
                        after.uri_of(space, agent) == s.uri_of(space, agent) by {}
                },
            }
        },
        _ => {
            lemma_settled_keeps_connected(s, uri, message, signer);
        },
    }
}

/// Whatever the transport reports, everybody who is found in a space is found at a connection
/// that stands: it holds of a new server, and the events keep it.
pub proof fn law_found_agents_are_connected(s: ServerState, events: Seq<StreamEventView>)
    requires
        s.wf(),
        all_found_connected(s),
    ensures
        all_found_connected(ServerState::empty()),
        all_found_connected(events_state(s, events)),
    decreases events.len(),
{
    if events.len() > 0 {
        let before = events_state(s, events.drop_last());
        law_found_agents_are_connected(s, events.drop_last());
        law_events_keep_wf(s, events.drop_last());
        assert forall|uri: Seq<char>, m: WireMessageView, signer: Seq<char>| all_found_connected(
            #[trigger] message_state(before, uri, m, signer),
        ) by {
            lemma_message_keeps_connected(before, uri, m, signer);
        }
        assert forall|uri: Seq<char>| all_found_connected(
            #[trigger] connect_state(before, uri),
        ) by {
            let after = connect_state(before, uri);
            assert forall|space: Seq<char>, agent: Seq<char>| #[trigger]
                after.uri_of(space, agent) == before.uri_of(space, agent) by {}
        }
        assert forall|uri: Seq<char>| all_found_connected(
            #[trigger] disconnect_state(before, uri),
        ) by {
            lemma_disconnect_keeps_connected(before, uri);
        }
    }
}

proof fn lemma_settled_moves_its_signer_only(
    s: ServerState,
    uri: Seq<char>,
    message: WireMessageView,
    signer: Seq<char>,
    space: Seq<char>,
    agent: Seq<char>,
)
    requires
        s.wf(),
        agent != signer,
        s.uri_of(space, agent) == Some(uri) ==> s.connection(uri) is None || settled_state(
            s,
            uri,
            message,
            signer,
        ).connection(uri) is Some,
    ensures
        settled_state(s, uri, message, signer).uri_of(space, agent) == s.uri_of(space, agent),
{
    let ended = disconnect_state(s, uri);
    law_disconnected_agent_is_gone(s, uri);
    assert(ended.uri_of(space, agent) == if s.uri_of(space, agent) == Some(uri)
        || s.connection(uri) == Some(ConnectionView::Joined { space, agent }) {
        None
    } else {
        s.uri_of(space, agent)
    });
}

proof fn lemma_replay_moves_its_signer_only(
    s: ServerState,
    uri: Seq<char>,
    messages: Seq<WireMessageView>,
    signer: Seq<char>,
    space: Seq<char>,
    agent: Seq<char>,
)
    requires
        s.wf(),
        agent != signer,
        s.uri_of(space, agent) == Some(uri) ==> replay_state(
            s,
            uri,
            messages,
            signer,
        ).connection(uri) is Some,
    ensures
        replay_state(s, uri, messages, signer).uri_of(space, agent) == s.uri_of(space, agent),
    decreases messages.len(),
{
    if messages.len() > 0 {
        let earlier = messages.drop_last();
        lemma_replay_moves_its_signer_only(s, uri, earlier, signer, space, agent);
        lemma_replay_wf(s, uri, earlier, signer);
        lemma_settled_moves_its_signer_only(
            replay_state(s, uri, earlier, signer),
            uri,
            messages.last(),
            signer,
            space,
            agent,
        );
    }
}

/// A message neither moves nor removes anybody but its signer and, if it ends the connection on
/// which it came, whoever is found there.
pub proof fn law_message_moves_its_signer_only(
    s: ServerState,
    uri: Seq<char>,
    message: WireMessageView,
    signer: Seq<char>,
    space: Seq<char>,
    agent: Seq<char>,
)
    requires
        s.wf(),
        agent != signer,
        s.uri_of(space, agent) == Some(uri) ==> s.connection(uri) is None || message_state(
            s,
            uri,
            message,
            signer,
        ).connection(uri) is Some,
    ensures
        message_state(s, uri, message, signer).uri_of(space, agent) == s.uri_of(space, agent),
{
    match s.connection(uri) {
        Some(ConnectionView::Limbo { pending }) => {
            if let WireMessageView::ClientToLib3h(ClientToLib3hView::JoinSpace(data)) = message {
                if data.agent_id == signer {
                    let entered = enter_state(s, uri, data);
                    lemma_enter_wf(s, uri, data);
                    lemma_put(s.space(data.space_address).agents, signer, uri);
                    assert(entered.uri_of(space, agent) == s.uri_of(space, agent));
                    lemma_replay_moves_its_signer_only(
                        entered,
                        uri,
                        pending,
                        signer,
                        space,
                        agent,
                    );
                }
            }
        },
        _ => {
            lemma_settled_moves_its_signer_only(s, uri, message, signer, space, agent);
        },
    }
}

/// In limbo, a message by which an agent joins a space is refused unless the agent signed it;
/// if it did, the message leads to what joining leads to.
pub proof fn law_join_message_joins(
    s: ServerState,
    uri: Seq<char>,
    data: SpaceDataView,
    signer: Seq<char>,
    out: Seq<EffectView>,
)
    requires
        in_limbo(s, uri),
        message_emits(s, uri, join_message(data), signer, out),
    ensures
        ({
            let result = message_result(s, uri, join_message(data), signer);
            let after = message_state(s, uri, join_message(data), signer);
            let logged = seq![
                EffectView::LogIn { agent: signer, uri, message: join_message(data) },
            ];
            if data.agent_id != signer {
                &&& result == Err::<(), Sim2hErrorView>(Sim2hErrorView::SignerMismatch)
                &&& after == s
                &&& out == logged
            } else {
                &&& result == join_result(s, uri)
                &&& after == join_state(s, uri, data)
                &&& out == logged + out.skip(1)
                &&& join_emits(s, uri, data, out.skip(1))
            }
        }),
{
    if data.agent_id != signer {
        assert(out.skip(1).len() == 0);
        assert(out =~= seq![
            EffectView::LogIn { agent: signer, uri, message: join_message(data) },
        ]);
    }
}

/// A message that the agent of a connection signed, other than a ping, is served in the space
/// that the connection joined and for the agent that joined on it, whatever it names itself.
pub proof fn law_message_is_served_in_its_space(
    s: ServerState,
    uri: Seq<char>,
    space: Seq<char>,
    agent: Seq<char>,
    message: WireMessageView,
    out: Seq<EffectView>,
)
    requires
        s.connection(uri) == Some(ConnectionView::Joined { space, agent }),
        !(message is Ping),
        message_emits(s, uri, message, agent, out),
    ensures
        message_result(s, uri, message, agent) == joined_result(s, uri, space, agent, message),
        message_state(s, uri, message, agent) == joined_state(s, uri, space, agent, message),
        out == seq![EffectView::LogIn { agent, uri, message }] + out.skip(1),
        joined_emits(s, uri, space, agent, message, out.skip(1)),
{
}

/// The state `after` knows what `before` does: each space still exists, and lists at least the
/// aspects that it did, in the same order.
pub open spec fn knows_no_less(before: ServerState, after: ServerState) -> bool {
    forall|space: Seq<char>| #[trigger]
        before.spaces.contains_key(space) ==> {
            &&& after.spaces.contains_key(space)
            &&& before.spaces[space].aspects.is_prefix_of(after.spaces[space].aspects)
        }
}

proof fn lemma_same_aspects_know_no_less(before: ServerState, after: ServerState)
    requires
        forall|space: Seq<char>| #[trigger]
            before.spaces.contains_key(space) ==> after.spaces.contains_key(space)
                && after.spaces[space].aspects == before.spaces[space].aspects,
    ensures
        knows_no_less(before, after),
{
    assert forall|space: Seq<char>| #[trigger]
        before.spaces.contains_key(space) implies after.spaces.contains_key(space)
        && before.spaces[space].aspects.is_prefix_of(after.spaces[space].aspects) by {
        let aspects = before.spaces[space].aspects;
        assert(aspects =~= aspects.take(aspects.len() as int));
    }
}

proof fn lemma_knows_no_less_transitive(a: ServerState, b: ServerState, c: ServerState)
    requires
        knows_no_less(a, b),
        knows_no_less(b, c),
    ensures
        knows_no_less(a, c),
{
    assert forall|space: Seq<char>| #[trigger]
        a.spaces.contains_key(space) implies c.spaces.contains_key(space)
        && a.spaces[space].aspects.is_prefix_of(c.spaces[space].aspects) by {
        let x = a.spaces[space].aspects;
        let y = b.spaces[space].aspects;
        let z = c.spaces[space].aspects;
        assert(b.spaces.contains_key(space));
        assert(x =~= y.take(x.len() as int));
        assert(y =~= z.take(y.len() as int));
        assert(x =~= z.take(x.len() as int));
    }
}

proof fn lemma_settled_forgets_nothing(
    s: ServerState,
    uri: Seq<char>,
    message: WireMessageView,
    signer: Seq<char>,
)
    requires
        s.wf(),
    ensures
        knows_no_less(s, settled_state(s, uri, message, signer)),
{
    lemma_same_aspects_know_no_less(s, s);
    if let Some(ConnectionView::Joined { space, agent }) = s.connection(uri) {
        lemma_same_aspects_know_no_less(s, disconnect_state(s, uri));
        assert forall|entry: EntryDataView| #[trigger]
            knows_no_less(s, publish_state(s, space, entry)) by {
            lemma_publish_forgets_nothing(s, space, entry);
        }
    }
}

proof fn lemma_publish_forgets_nothing(s: ServerState, space: Seq<char>, entry: EntryDataView)
    requires
        s.wf(),
    ensures
        knows_no_less(s, publish_state(s, space, entry)),
{
    let after = publish_state(s, space, entry);
    lemma_with_entry_aspects(
        s.space(space).aspects,
        entry.entry_address,
        aspect_addresses(entry.aspect_list),
    );
    assert forall|sp: Seq<char>| #[trigger]
        s.spaces.contains_key(sp) implies after.spaces.contains_key(sp)
        && s.spaces[sp].aspects.is_prefix_of(after.spaces[sp].aspects) by {
        let aspects = s.spaces[sp].aspects;
        assert(aspects =~= aspects.take(aspects.len() as int));
    }
}

proof fn lemma_replay_forgets_nothing(
    s: ServerState,
    uri: Seq<char>,
    messages: Seq<WireMessageView>,
    signer: Seq<char>,
)
    requires
        s.wf(),
    ensures
        knows_no_less(s, replay_state(s, uri, messages, signer)),
    decreases messages.len(),
{
    if messages.len() == 0 {
        lemma_same_aspects_know_no_less(s, s);
    } else {
        let earlier = messages.drop_last();
        let before = replay_state(s, uri, earlier, signer);
        lemma_replay_forgets_nothing(s, uri, earlier, signer);
        lemma_replay_wf(s, uri, earlier, signer);
        lemma_settled_forgets_nothing(before, uri, messages.last(), signer);
        lemma_knows_no_less_transitive(
            s,
            before,
            replay_state(s, uri, messages, signer),
        );
    }
}

/// No message has the server forget a space or an aspect.
pub proof fn law_message_forgets_nothing(
    s: ServerState,
    uri: Seq<char>,
    message: WireMessageView,
    signer: Seq<char>,
)
    requires
        s.wf(),
    ensures
        knows_no_less(s, message_state(s, uri, message, signer)),
{
    lemma_same_aspects_know_no_less(s, message_state(s, uri, WireMessageView::Ping, signer));
    match s.connection(uri) {
        Some(ConnectionView::Limbo { pending }) => {
            match message {
                WireMessageView::ClientToLib3h(ClientToLib3hView::JoinSpace(data)) => {
                    let entered = enter_state(s, uri, data);
                    lemma_same_aspects_know_no_less(s, entered);
                    lemma_enter_wf(s, uri, data);
                    lemma_replay_forgets_nothing(entered, uri, pending, data.agent_id);
                    lemma_knows_no_less_transitive(s, entered, join_state(s, uri, data));
                },
                _ => {
                    lemma_same_aspects_know_no_less(s, message_state(s, uri, message, signer));
                },
            }
        },
        _ => {
            lemma_settled_forgets_nothing(s, uri, message, signer);
        },
    }
}

/// Nothing that the transport reports has the server forget a space or an aspect.
pub proof fn law_events_forget_nothing(s: ServerState, events: Seq<StreamEventView>)
    requires
        s.wf(),
    ensures
        knows_no_less(s, events_state(s, events)),
    decreases events.len(),
{
    if events.len() == 0 {
        lemma_same_aspects_know_no_less(s, s);
    } else {
        let before = events_state(s, events.drop_last());
        law_events_forget_nothing(s, events.drop_last());
        law_events_keep_wf(s, events.drop_last());
        assert forall|uri: Seq<char>, m: WireMessageView, signer: Seq<char>| #[trigger]
            knows_no_less(before, message_state(before, uri, m, signer)) by {
            law_message_forgets_nothing(before, uri, m, signer);
        }
        assert forall|uri: Seq<char>| #[trigger]
            knows_no_less(before, connect_state(before, uri)) by {
            lemma_same_aspects_know_no_less(before, connect_state(before, uri));
        }
        assert forall|uri: Seq<char>| #[trigger]
            knows_no_less(before, disconnect_state(before, uri)) by {
            lemma_same_aspects_know_no_less(before, disconnect_state(before, uri));
        }
        lemma_same_aspects_know_no_less(before, before);
        lemma_knows_no_less_transitive(s, before, events_state(s, events));
    }
}

/// A message changes no connection but its own.
pub proof fn law_message_changes_its_connection_only(
    s: ServerState,
    uri: Seq<char>,
    message: WireMessageView,
    signer: Seq<char>,
    other: Seq<char>,
)
    requires
        other != uri,
    ensures
        message_state(s, uri, message, signer).connection(other) == s.connection(other),
{
    if let Some(ConnectionView::Limbo { pending }) = s.connection(uri) {
        if let WireMessageView::ClientToLib3h(ClientToLib3hView::JoinSpace(data)) = message {
            lemma_replay_changes_its_connection_only(
                enter_state(s, uri, data),
                uri,
                pending,
                data.agent_id,
                other,
            );
        }
    }
}

proof fn lemma_replay_changes_its_connection_only(
    s: ServerState,
    uri: Seq<char>,
    messages: Seq<WireMessageView>,
    signer: Seq<char>,
    other: Seq<char>,
)
    requires
        other != uri,
    ensures
        replay_state(s, uri, messages, signer).connection(other) == s.connection(other),
    decreases messages.len(),
{
    if messages.len() > 0 {
        lemma_replay_changes_its_connection_only(s, uri, messages.drop_last(), signer, other);
    }
}

/// A message of an agent that is in a space changes no other space, but that nobody is found at
/// the connection any more when the message ends it.
pub proof fn law_message_changes_its_space_only(
    s: ServerState,
    uri: Seq<char>,
    space: Seq<char>,
    agent: Seq<char>,
    message: WireMessageView,
    other: Seq<char>,
)
    requires
        s.connection(uri) == Some(ConnectionView::Joined { space, agent }),
        other != space,
    ensures
        ({
            let after = message_state(s, uri, message, agent);
            &&& after.spaces.contains_key(other) == s.spaces.contains_key(other)
            &&& after.space(other) == if leaves(message, space, agent) {
                s.space(other).without_uri(uri)
            } else {
                s.space(other)
            }
        }),
{
    reveal(Seq::filter);
    assert(SpaceView::empty().without_uri(uri) =~= SpaceView::empty());
}

/// The other agents of a space are its agents but one, each in the place that it has there.
pub proof fn law_others(space: SpaceView, agent: Seq<char>)
    requires
        space.wf(),
    ensures
        distinct_keys(space.others(agent)),
        forall|a: Seq<char>| #[trigger]
            lookup(space.others(agent), a) == if a == agent {
                None
            } else {
                lookup(space.agents, a)
            },
{
    lemma_filter(space.agents, is_other_than(agent));
}

/// The effect is that something is logged, or that a message goes to an agent of the space, in
/// the place that it has there, or to the connection `uri`.
pub open spec fn stays_within(space: SpaceView, uri: Seq<char>, effect: EffectView) -> bool {
    match effect {
        EffectView::LogIn { .. } => true,
        EffectView::Send { agent: to, uri: at, .. } => at == uri || lookup(space.agents, to)
            == Some(at),
    }
}

/// Each of the effects stays within the space.
pub open spec fn all_stay_within(
    space: SpaceView,
    uri: Seq<char>,
    effects: Seq<EffectView>,
) -> bool {
    forall|i: int| 0 <= i < effects.len() ==> stays_within(space, uri, #[trigger] effects[i])
}

proof fn lemma_store_stays_within(
    here: SpaceView,
    uri: Seq<char>,
    to: Seq<(Seq<char>, Seq<char>)>,
    space: Seq<char>,
    provider: Seq<char>,
    entry: Seq<char>,
    aspects: Seq<EntryAspectDataView>,
)
    requires
        forall|i: int|
            0 <= i < to.len() ==> lookup(here.agents, (#[trigger] to[i]).0) == Some(to[i].1),
    ensures
        all_stay_within(here, uri, store_effects(to, space, provider, entry, aspects)),
    decreases aspects.len(),
{
    if aspects.len() > 0 {
        lemma_store_stays_within(here, uri, to, space, provider, entry, aspects.drop_last());
        let earlier = store_effects(to, space, provider, entry, aspects.drop_last());
        let last = broadcast_effects(to, store_message(space, provider, entry, aspects.last()));
        assert forall|i: int| 0 <= i < (earlier + last).len() implies stays_within(
            here,
            uri,
            #[trigger] (earlier + last)[i],
        ) by {
            if i >= earlier.len() {
                let j = i - earlier.len();
                assert(last[j] == sent(
                    to[j].0,
                    to[j].1,
                    store_message(space, provider, entry, aspects.last()),
                ));
            } else {
                assert((earlier + last)[i] == earlier[i]);
            }
        }
    }
}

proof fn lemma_joined_stays_within(
    s: ServerState,
    uri: Seq<char>,
    space: Seq<char>,
    agent: Seq<char>,
    message: WireMessageView,
    out: Seq<EffectView>,
)
    requires
        s.wf(),
        joined_emits(s, uri, space, agent, message, out),
    ensures
        all_stay_within(s.space(space), uri, out),
{
    let here = s.space(space);
    let others = here.others(agent);
    law_others(here, agent);
    assert forall|i: int| 0 <= i < others.len() implies lookup(
        here.agents,
        (#[trigger] others[i]).0,
    ) == Some(others[i].1) by {
        lemma_place(others, i);
        assert(lookup(others, others[i].0) is Some);
    }
    match message {
        WireMessageView::ClientToLib3h(ClientToLib3hView::PublishEntry(data)) => {
            lemma_store_stays_within(
                here,
                uri,
                others,
                space,
                agent,
                data.entry.entry_address,
                data.entry.aspect_list,
            );
        },
        WireMessageView::Lib3hToClientResponse(
            Lib3hToClientResponseView::HandleFetchEntryResult(data),
        ) => {
            lemma_store_stays_within(
                here,
                uri,
                others,
                space,
                agent,
                data.entry.entry_address,
                data.entry.aspect_list,
            );
            if let Some(at) = s.uri_of(space, data.request_id) {
                lemma_store_stays_within(
                    here,
                    uri,
                    seq![(data.request_id, at)],
                    space,
                    agent,
                    data.entry.entry_address,
                    data.entry.aspect_list,
                );
            }
        },
        _ => {},
    }
}

/// Nothing that an agent of a space sends leaves the space: what the server sends on its
/// account goes to agents of that space, or back to the connection of the sender.
pub proof fn law_message_stays_in_its_space(
    s: ServerState,
    uri: Seq<char>,
    space: Seq<char>,
    agent: Seq<char>,
    message: WireMessageView,
    signer: Seq<char>,
    out: Seq<EffectView>,
)
    requires
        s.wf(),
        s.connection(uri) == Some(ConnectionView::Joined { space, agent }),
        message_emits(s, uri, message, signer, out),
    ensures
        all_stay_within(s.space(space), uri, out),
{
    if !(message is Ping) {
        let rest = out.skip(1);
        if agent == signer {
            lemma_joined_stays_within(s, uri, space, agent, message, rest);
        }
        assert forall|i: int| 0 <= i < out.len() implies stays_within(
            s.space(space),
            uri,
            #[trigger] out[i],
        ) by {
            if i > 0 {
                assert(out[i] == rest[i - 1]);
            }
        }
    }
}

proof fn lemma_replay_stays_within(
    s: ServerState,
    uri: Seq<char>,
    space: Seq<char>,
    agent: Seq<char>,
    messages: Seq<WireMessageView>,
    out: Seq<EffectView>,
)
    requires
        s.wf(),
        s.spaces.contains_key(space),
        s.connection(uri) == Some(ConnectionView::Joined { space, agent }),
        has_key(s.space(space).agents, agent),
        replay_emits(s, uri, messages, agent, out),
    ensures
        all_stay_within(s.space(space), uri, out),
    decreases messages.len(),
{
    if messages.len() > 0 {
        let earlier = messages.drop_last();
        let here = replay_state(s, uri, earlier, agent);
        let k = choose|k: int|
            0 <= k <= out.len() && replay_emits(s, uri, earlier, agent, #[trigger] out.take(k))
                && logged_first(agent, uri, messages.last(), out.skip(k)) && settled_emits(
                here,
                uri,
                messages.last(),
                agent,
                out.skip(k + 1),
            );
        lemma_replay_stays_within(s, uri, space, agent, earlier, out.take(k));
        lemma_replay_connection(s, uri, space, agent, earlier);
        lemma_replay_wf(s, uri, earlier, agent);
        if here.connection(uri) is Some {
            lemma_joined_stays_within(
                here,
                uri,
                space,
                agent,
                messages.last(),
                out.skip(k + 1),
            );
        }
        assert forall|i: int| 0 <= i < out.len() implies stays_within(
            s.space(space),
            uri,
            #[trigger] out[i],
        ) by {
            if i < k {
                assert(out[i] == out.take(k)[i]);
            } else if i == k {
                assert(out[i] == out.skip(k)[0]);
            } else {
                assert(out[i] == out.skip(k + 1)[i - k - 1]);
            }
        }
    }
}

/// Nothing leaves the space when an agent joins it, whatever waited in limbo.
pub proof fn law_join_stays_in_its_space(
    s: ServerState,
    uri: Seq<char>,
    data: SpaceDataView,
    out: Seq<EffectView>,
)
    requires
        s.wf(),
        in_limbo(s, uri),
        join_emits(s, uri, data, out),
    ensures
        all_stay_within(enter_state(s, uri, data).space(data.space_address), uri, out),
{
    let pending = s.connections[uri]->pending;
    let entered = enter_state(s, uri, data);
    let here = entered.space(data.space_address);
    let rest = out.skip(2);
    lemma_enter_wf(s, uri, data);
    lemma_put(s.space(data.space_address).agents, data.agent_id, uri);
    lemma_replay_stays_within(entered, uri, data.space_address, data.agent_id, pending, rest);
    assert forall|i: int| 0 <= i < out.len() implies stays_within(
        here,
        uri,
        #[trigger] out[i],
    ) by {
        if i >= 2 {
            assert(out[i] == rest[i - 2]);
        } else {
            assert(out[i] == enter_effects(uri, data)[i]);
        }
    }
}

/// What is stored goes to each of the agents `to`, aspect by aspect, once each: to the agent in
/// the place `j` goes the aspect in the place `k`.
pub proof fn law_store_reaches_each(
    to: Seq<(Seq<char>, Seq<char>)>,
    space: Seq<char>,
    provider: Seq<char>,
    entry: Seq<char>,
    aspects: Seq<EntryAspectDataView>,
    k: int,
    j: int,
)
    requires
        0 <= k < aspects.len(),
        0 <= j < to.len(),
    ensures
        0 <= k * to.len() + j < store_effects(to, space, provider, entry, aspects).len(),
        store_effects(to, space, provider, entry, aspects)[k * to.len() + j] == sent(
            to[j].0,
            to[j].1,
            store_message(space, provider, entry, aspects[k]),
        ),
    decreases aspects.len(),
{
    let n = to.len() as int;
    let shorter = aspects.drop_last();
    let last = aspects.len() - 1;
    law_store_count(to, space, provider, entry, shorter);
    assert(shorter.len() * to.len() == last * n);
    assert(0 <= k * n) by (nonlinear_arith)
        requires
            0 <= k,
            0 <= n,
    ;
    if k < last {
        law_store_reaches_each(to, space, provider, entry, shorter, k, j);
        assert(shorter[k] == aspects[k]);
    }
}

/// The number of messages that go out is that of the aspects times that of the agents.
pub proof fn law_store_count(
    to: Seq<(Seq<char>, Seq<char>)>,
    space: Seq<char>,
    provider: Seq<char>,
    entry: Seq<char>,
    aspects: Seq<EntryAspectDataView>,
)
    ensures
        store_effects(to, space, provider, entry, aspects).len() == aspects.len() * to.len(),
    decreases aspects.len(),
{
    let n = to.len() as int;
    if aspects.len() > 0 {
        let last = aspects.len() - 1;
        law_store_count(to, space, provider, entry, aspects.drop_last());
        assert(aspects.len() * to.len() == last * n + n) by (nonlinear_arith)
            requires
                last == aspects.len() - 1,
                n == to.len(),
        ;
    } else {
        assert(aspects.len() * to.len() == 0) by (nonlinear_arith)
            requires
                aspects.len() == 0,
        ;
    }
}

/// The message by which an agent publishes an entry.
pub open spec fn publish_message(data: ProvidedEntryDataView) -> WireMessageView {
    WireMessageView::ClientToLib3h(ClientToLib3hView::PublishEntry(data))
}

/// What an agent publishes reaches every other agent of the space, aspect by aspect, and each
/// aspect with all that it holds.
pub proof fn law_published_reaches_all_others(
    s: ServerState,
    uri: Seq<char>,
    space: Seq<char>,
    provider: Seq<char>,
    data: ProvidedEntryDataView,
    out: Seq<EffectView>,
    other: Seq<char>,
    k: int,
)
    requires
        s.wf(),
        s.connection(uri) == Some(ConnectionView::Joined { space, agent: provider }),
        message_result(s, uri, publish_message(data), provider) is Ok,
        message_emits(s, uri, publish_message(data), provider, out),
        other != provider,
        s.uri_of(space, other) is Some,
        0 <= k < data.entry.aspect_list.len(),
    ensures
        out.contains(
            EffectView::Send {
                agent: other,
                uri: s.uri_of(space, other)->0,
                message: WireMessageView::Lib3hToClient(
                    Lib3hToClientView::HandleStoreEntryAspect(
                        StoreEntryAspectDataView {
                            request_id: Seq::empty(),
                            space_address: space,
                            provider_agent_id: provider,
                            entry_address: data.entry.entry_address,
                            entry_aspect: data.entry.aspect_list[k],
                        },
                    ),
                ),
                logged: true,
            },
        ),
{
    let others = s.space(space).others(provider);
    law_others(s.space(space), provider);
    assert(lookup(others, other) == s.uri_of(space, other));
    let j = place_of(others, other);
    assert(0 <= j < others.len() && others[j].0 == other);
    law_store_reaches_each(
        others,
        space,
        provider,
        data.entry.entry_address,
        data.entry.aspect_list,
        k,
        j,
    );
    let at = k * others.len() + j;
    assert(out.skip(1)[at] == out[at + 1]);
}

/// What an agent publishes does not come back to it: nothing that is sent is for it.
pub proof fn law_published_does_not_come_back(
    s: ServerState,
    uri: Seq<char>,
    space: Seq<char>,
    provider: Seq<char>,
    data: ProvidedEntryDataView,
    out: Seq<EffectView>,
)
    requires
        s.wf(),
        s.connection(uri) == Some(ConnectionView::Joined { space, agent: provider }),
        message_emits(s, uri, publish_message(data), provider, out),
    ensures
        forall|i: int|
            0 <= i < out.len() ==> (#[trigger] out[i] matches EffectView::Send { agent, .. }
                ==> agent != provider),
{
    let others = s.space(space).others(provider);
    law_others(s.space(space), provider);
    assert forall|i: int| 0 <= i < others.len() implies (#[trigger] others[i]).0 != provider by {
        assert(has_key(others, others[i].0));
        assert(lookup(others, others[i].0) is Some);
    }
    lemma_store_goes_to(
        others,
        provider,
        space,
        data.entry.entry_address,
        data.entry.aspect_list,
    );
    assert forall|i: int| 0 <= i < out.len() implies (
    #[trigger] out[i] matches EffectView::Send { agent, .. } ==> agent != provider) by {
        if i > 0 {
            assert(out[i] == out.skip(1)[i - 1]);
        }
    }
}

proof fn lemma_store_goes_to(
    to: Seq<(Seq<char>, Seq<char>)>,
    provider: Seq<char>,
    space: Seq<char>,
    entry: Seq<char>,
    aspects: Seq<EntryAspectDataView>,
)
    requires
        forall|i: int| 0 <= i < to.len() ==> (#[trigger] to[i]).0 != provider,
    ensures
        ({
            let whole = store_effects(to, space, provider, entry, aspects);
            forall|i: int|
                0 <= i < whole.len() ==> (#[trigger] whole[i] matches EffectView::Send { agent, .. }
                    && agent != provider)
        }),
    decreases aspects.len(),
{
    if aspects.len() > 0 {
        lemma_store_goes_to(to, provider, space, entry, aspects.drop_last());
        let earlier = store_effects(to, space, provider, entry, aspects.drop_last());
        let last = broadcast_effects(to, store_message(space, provider, entry, aspects.last()));
        let whole = store_effects(to, space, provider, entry, aspects);
        assert forall|i: int| 0 <= i < whole.len() implies (
        #[trigger] whole[i] matches EffectView::Send { agent, .. } && agent != provider) by {
            if i >= earlier.len() {
                let j = i - earlier.len();
                assert(whole[i] == last[j]);
                assert(to[j].0 != provider);
            } else {
                assert(whole[i] == earlier[i]);
            }
        }
    }
}

/// The message by which an agent sends another one a direct message.
pub open spec fn direct_message(data: DirectMessageDataView) -> WireMessageView {
    WireMessageView::ClientToLib3h(ClientToLib3hView::SendDirectMessage(data))
}

/// The message by which an agent answers a direct message.
pub open spec fn direct_answer(data: DirectMessageDataView) -> WireMessageView {
    WireMessageView::Lib3hToClientResponse(
        Lib3hToClientResponseView::HandleSendDirectMessageResult(data),
    )
}

/// A direct message reaches the agent that it is for, that agent's answer reaches the sender,
/// and neither goes to anybody else or changes what the server knows.
pub proof fn law_direct_message_and_answer(
    s: ServerState,
    space: Seq<char>,
    from_uri: Seq<char>,
    to_uri: Seq<char>,
    data: DirectMessageDataView,
    answer: DirectMessageDataView,
    asking: Seq<EffectView>,
    answering: Seq<EffectView>,
)
    requires
        s.connection(from_uri) == Some(ConnectionView::Joined { space, agent: data.from_agent_id }),
        s.connection(to_uri) == Some(ConnectionView::Joined { space, agent: data.to_agent_id }),
        s.uri_of(space, data.from_agent_id) == Some(from_uri),
        s.uri_of(space, data.to_agent_id) == Some(to_uri),
        data.space_address == space,
        answer.space_address == space,
        answer.from_agent_id == data.to_agent_id,
        answer.to_agent_id == data.from_agent_id,
        message_emits(s, from_uri, direct_message(data), data.from_agent_id, asking),
        message_emits(s, to_uri, direct_answer(answer), data.to_agent_id, answering),
    ensures
        message_result(s, from_uri, direct_message(data), data.from_agent_id) is Ok,
        message_state(s, from_uri, direct_message(data), data.from_agent_id) == s,
        asking == seq![
            EffectView::LogIn {
                agent: data.from_agent_id,
                uri: from_uri,
                message: direct_message(data),
            },
            sent(
                data.to_agent_id,
                to_uri,
                WireMessageView::Lib3hToClient(Lib3hToClientView::HandleSendDirectMessage(data)),
            ),
        ],
        message_result(s, to_uri, direct_answer(answer), data.to_agent_id) is Ok,
        message_state(s, to_uri, direct_answer(answer), data.to_agent_id) == s,
        answering == seq![
            EffectView::LogIn {
                agent: data.to_agent_id,
                uri: to_uri,
                message: direct_answer(answer),
            },
            sent(
                data.from_agent_id,
                from_uri,
                WireMessageView::Lib3hToClient(Lib3hToClientView::SendDirectMessageResult(answer)),
            ),
        ],
{
    assert(asking.skip(1).len() == 1);
    assert(asking[1] == asking.skip(1)[0]);
    assert(answering.skip(1).len() == 1);
    assert(answering[1] == answering.skip(1)[0]);
}

/// The server can serve whatever a client may send, as long as the client's agent is found in
/// its space.
pub proof fn law_present_agent_is_served(
    s: ServerState,
    uri: Seq<char>,
    space: Seq<char>,
    agent: Seq<char>,
    message: WireMessageView,
    signer: Seq<char>,
)
    requires
        s.wf(),
        s.connection(uri) == Some(ConnectionView::Joined { space, agent }),
        s.uri_of(space, agent) is Some,
        !server_only(message),
    ensures
        message_ok(s, uri, message, signer),
{
    assert(s.connections[uri] is Joined);
    if s.space(space).agents.len() > 1 {
        lemma_others_nonempty(s.space(space), agent);
    }
}

/// Only a new connection is in limbo: no message takes a connection back there.
pub proof fn law_limbo_is_left_for_good(
    s: ServerState,
    uri: Seq<char>,
    message: WireMessageView,
    signer: Seq<char>,
)
    requires
        !in_limbo(s, uri),
    ensures
        !in_limbo(message_state(s, uri, message, signer), uri),
{
}

} // verus!
