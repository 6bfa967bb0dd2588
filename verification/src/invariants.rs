//! What every step of the server keeps.

use crate::cache::{
    is_elsewhere, is_other_than, with_aspect, with_entry_aspects, Aspect, SpaceView,
};
use crate::connection_state::ConnectionView;
use crate::data_types::{EntryDataView, SpaceDataView};
use crate::effect::EffectView;
use crate::keyed::{has_key, lemma_filter, lemma_put, lemma_without, lookup, without};
use crate::rules::{
    abandoned, all_wait, connect_state, disconnect_state, enter_state, join_state, joined_state,
    leaves, logged_first, message_state, publish_state, replay_emits, replay_state, settled_emits,
    ServerState,
};
use crate::wire_message::WireMessageView;
use vstd::prelude::*;

verus! {

/// Adding aspects never lists one twice, and loses none.
pub proof fn lemma_with_entry_aspects(
    aspects: Seq<Aspect>,
    entry: Seq<char>,
    addresses: Seq<Seq<char>>,
)
    requires
        aspects.no_duplicates(),
    ensures
        with_entry_aspects(aspects, entry, addresses).no_duplicates(),
        aspects.is_prefix_of(with_entry_aspects(aspects, entry, addresses)),
        forall|a: Aspect| #[trigger]
            with_entry_aspects(aspects, entry, addresses).contains(a) <==> aspects.contains(a) || (
            a.0 == entry && addresses.contains(a.1)),
    decreases addresses.len(),
{
    let after = with_entry_aspects(aspects, entry, addresses);
    if addresses.len() > 0 {
        let shorter = addresses.drop_last();
        let before = with_entry_aspects(aspects, entry, shorter);
        let last = (entry, addresses.last());
        lemma_with_entry_aspects(aspects, entry, shorter);
        assert(after == with_aspect(before, last));
        assert(aspects =~= after.take(aspects.len() as int)) by {
            assert(aspects =~= before.take(aspects.len() as int));
        }
        assert forall|a: Aspect| #[trigger] after.contains(a) <==> aspects.contains(a) || (a.0
            == entry && addresses.contains(a.1)) by {
            assert(addresses =~= shorter.push(addresses.last()));
            if before.contains(a) {
                let i = choose|i: int| 0 <= i < before.len() && before[i] == a;
                assert(after[i] == a);
            }
            if a == last {
                if !before.contains(last) {
                    assert(after[before.len() as int] == a);
                }
                assert(addresses[addresses.len() - 1] == a.1);
            }
            if shorter.contains(a.1) {
                let i = choose|i: int| 0 <= i < shorter.len() && shorter[i] == a.1;
                assert(addresses[i] == a.1);
            }
            if after.contains(a) && !before.contains(a) {
                let i = choose|i: int| 0 <= i < after.len() && after[i] == a;
                if i < before.len() {
                    assert(before[i] == a);
                }
                assert(a == last);
            }
            if addresses.contains(a.1) && !shorter.contains(a.1) {
                let i = choose|i: int| 0 <= i < addresses.len() && addresses[i] == a.1;
                if i < shorter.len() {
                    assert(shorter[i] == a.1);
                }
                assert(a.1 == addresses.last());
            }
        }
    }
}

/// A new connection keeps the state well formed.
pub proof fn lemma_connect_wf(s: ServerState, uri: Seq<char>)
    requires
        s.wf(),
    ensures
        connect_state(s, uri).wf(),
{
}

/// When a connection ends, whoever is found there and whoever joined on it is gone from a space;
/// everybody else stays.
pub proof fn lemma_abandoned(s: ServerState, uri: Seq<char>, space: Seq<char>)
    requires
        s.wf(),
    ensures
        abandoned(s, uri, space).wf(),
        forall|agent: Seq<char>| #[trigger]
            lookup(abandoned(s, uri, space).agents, agent) == if s.uri_of(space, agent) == Some(uri)
                || s.connection(uri) == Some(ConnectionView::Joined { space, agent }) {
                None
            } else {
                s.uri_of(space, agent)
            },
{
    let here = s.space(space);
    lemma_filter(here.agents, is_elsewhere(uri));
    if let Some(ConnectionView::Joined { space: joined, agent }) = s.connection(uri) {
        lemma_without(here.agents, agent);
        lemma_filter(without(here.agents, agent), is_elsewhere(uri));
    }
}

/// The end of a connection keeps the state well formed.
pub proof fn lemma_disconnect_wf(s: ServerState, uri: Seq<char>)
    requires
        s.wf(),
    ensures
        disconnect_state(s, uri).wf(),
{
    let after = disconnect_state(s, uri);
    assert forall|space: Seq<char>| #[trigger]
        after.spaces.contains_key(space) implies after.spaces[space].wf() by {
        lemma_abandoned(s, uri, space);
    }
    assert forall|u: Seq<char>| after.connections.contains_key(u) implies match (
    #[trigger] after.connections[u]) {
        ConnectionView::Joined { space, .. } => after.spaces.contains_key(space),
        ConnectionView::Limbo { pending } => all_wait(pending),
    } by {
        assert(after.connections[u] == s.connections[u]);
    }
}

/// Entering a space keeps the state well formed.
pub proof fn lemma_enter_wf(s: ServerState, uri: Seq<char>, data: SpaceDataView)
    requires
        s.wf(),
    ensures
        enter_state(s, uri, data).wf(),
{
    lemma_put(s.space(data.space_address).agents, data.agent_id, uri);
    let after = enter_state(s, uri, data);
    assert forall|u: Seq<char>| after.connections.contains_key(u) implies match (
    #[trigger] after.connections[u]) {
        ConnectionView::Joined { space, .. } => after.spaces.contains_key(space),
        ConnectionView::Limbo { pending } => all_wait(pending),
    } by {
        if u != uri {
            assert(after.connections[u] == s.connections[u]);
        }
    }
}

/// Learning of aspects keeps the state well formed.
pub proof fn lemma_publish_wf(s: ServerState, space: Seq<char>, entry: EntryDataView)
    requires
        s.wf(),
    ensures
        publish_state(s, space, entry).wf(),
{
    lemma_with_entry_aspects(
        s.space(space).aspects,
        entry.entry_address,
        crate::rules::aspect_addresses(entry.aspect_list),
    );
    let after = publish_state(s, space, entry);
    assert forall|u: Seq<char>| after.connections.contains_key(u) implies match (
    #[trigger] after.connections[u]) {
        ConnectionView::Joined { space, .. } => after.spaces.contains_key(space),
        ConnectionView::Limbo { pending } => all_wait(pending),
    } by {
        assert(after.connections[u] == s.connections[u]);
    }
}

/// A message of an agent that is in a space keeps the state well formed.
pub proof fn lemma_joined_wf(
    s: ServerState,
    uri: Seq<char>,
    space: Seq<char>,
    agent: Seq<char>,
    message: WireMessageView,
)
    requires
        s.wf(),
    ensures
        joined_state(s, uri, space, agent, message).wf(),
{
    lemma_disconnect_wf(s, uri);
    assert forall|entry: EntryDataView| #[trigger] publish_state(s, space, entry).wf() by {
        lemma_publish_wf(s, space, entry);
    }
}

/// Serving what waited in limbo keeps the state well formed.
pub proof fn lemma_replay_wf(
    s: ServerState,
    uri: Seq<char>,
    messages: Seq<WireMessageView>,
    signer: Seq<char>,
)
    requires
        s.wf(),
    ensures
        replay_state(s, uri, messages, signer).wf(),
    decreases messages.len(),
{
    if messages.len() > 0 {
        lemma_replay_wf(s, uri, messages.drop_last(), signer);
        let before = replay_state(s, uri, messages.drop_last(), signer);
        if let Some(ConnectionView::Joined { space, agent }) = before.connection(uri) {
            lemma_joined_wf(before, uri, space, agent, messages.last());
        }
    }
}

/// Every message keeps the state well formed.
pub proof fn lemma_message_wf(
    s: ServerState,
    uri: Seq<char>,
    message: WireMessageView,
    signer: Seq<char>,
)
    requires
        s.wf(),
    ensures
        message_state(s, uri, message, signer).wf(),
{
    match s.connection(uri) {
        Some(ConnectionView::Joined { space, agent }) => {
            lemma_joined_wf(s, uri, space, agent, message);
        },
        Some(ConnectionView::Limbo { pending }) => {
            assert forall|data: SpaceDataView| #[trigger] join_state(s, uri, data).wf() by {
                lemma_enter_wf(s, uri, data);
                lemma_replay_wf(enter_state(s, uri, data), uri, pending, data.agent_id);
            }
        },
        None => {},
    }
}

/// While what waited in limbo is served, the connection is never in limbo: it is in the space
/// until a message has the agent leave, and ended from then on.
pub proof fn lemma_replay_connection(
    s: ServerState,
    uri: Seq<char>,
    space: Seq<char>,
    agent: Seq<char>,
    messages: Seq<WireMessageView>,
)
    requires
        s.connection(uri) == Some(ConnectionView::Joined { space, agent }),
        has_key(s.space(space).agents, agent),
        s.spaces.contains_key(space),
    ensures
        ({
            let after = replay_state(s, uri, messages, agent);
            if exists|j: int|
                0 <= j < messages.len() && leaves(#[trigger] messages[j], space, agent) {
                after.connection(uri) is None
            } else {
                &&& after.connection(uri) == Some(ConnectionView::Joined { space, agent })
                &&& after.space(space).agents == s.space(space).agents
                &&& after.spaces.contains_key(space)
            }
        }),
    decreases messages.len(),
{
    if messages.len() > 0 {
        let earlier = messages.drop_last();
        let last = messages.last();
        lemma_replay_connection(s, uri, space, agent, earlier);
        assert(messages[messages.len() - 1] == last);
        assert forall|j: int| 0 <= j < earlier.len() implies #[trigger] messages[j]
            == earlier[j] by {}
        if exists|j: int| 0 <= j < earlier.len() && leaves(#[trigger] earlier[j], space, agent) {
            let j = choose|j: int|
                0 <= j < earlier.len() && leaves(#[trigger] earlier[j], space, agent);
            assert(leaves(messages[j], space, agent));
        } else {
            assert forall|j: int|
                0 <= j < messages.len() && leaves(#[trigger] messages[j], space, agent) implies j
                == messages.len() - 1 by {
                if j < earlier.len() {
                    assert(leaves(earlier[j], space, agent));
                }
            }
        }
    }
}

/// One more of the messages that waited in limbo is served.
pub proof fn lemma_replay_step(
    s: ServerState,
    uri: Seq<char>,
    messages: Seq<WireMessageView>,
    message: WireMessageView,
    signer: Seq<char>,
    out: Seq<EffectView>,
    k: int,
)
    requires
        0 <= k <= out.len(),
        replay_emits(s, uri, messages, signer, out.take(k)),
        logged_first(signer, uri, message, out.skip(k)),
        settled_emits(
            replay_state(s, uri, messages, signer),
            uri,
            message,
            signer,
            out.skip(k + 1),
        ),
    ensures
        replay_emits(s, uri, messages.push(message), signer, out),
{
    let longer = messages.push(message);
    assert(longer.drop_last() =~= messages);
    assert(longer.last() == message);
    assert(replay_emits(s, uri, longer.drop_last(), signer, out.take(k)));
}

/// In a space of several agents, each has others.
pub proof fn lemma_others_nonempty(space: SpaceView, agent: Seq<char>)
    requires
        space.wf(),
        space.agents.len() > 1,
    ensures
        space.others(agent).len() > 0,
{
    let keep = is_other_than(agent);
    let i: int = if space.agents[0].0 != agent {
        0
    } else {
        1
    };
    assert(keep(space.agents[i]));
    space.agents.lemma_filter_contains(keep, i);
    assert(space.others(agent).contains(space.agents[i]));
}

} // verus!
