//! What the server does with each kind of message of an agent that is in a space: when it
//! answers with success, what it learns, and what it sends to whom.

use crate::cache::{aspects_missing, aspects_of, entries_of, listed_aspects, Aspect};
use crate::connection_state::ConnectionView;
use crate::data_types::{
    AddressMapItemView, DirectMessageDataView, EntryDataView, EntryListDataView,
    FetchEntryDataView, FetchEntryResultDataView, ProvidedEntryDataView, SpaceDataView,
    StoreEntryAspectDataView,
};
use crate::effect::{sent, EffectView};
use crate::error::Sim2hErrorView;
use crate::invariants::{lemma_others_nonempty, lemma_with_entry_aspects};
use crate::keyed::lookup;
use crate::laws::{law_others, law_store_count, law_store_reaches_each};
use crate::rules::{
    aspect_addresses, broadcast_effects, disconnect_state, fetch_effects, joined_effects,
    joined_emits, joined_ok, joined_result, joined_state, leave_result, leave_state, publish_state,
    store_effects, store_message, ServerState,
};
use crate::sync_laws::{law_entries, law_listed, law_missing, lists};
use crate::wire_message::{
    ClientToLib3hView, Lib3hToClientResponseView, Lib3hToClientView, WireMessageView,
};
use vstd::prelude::*;

verus! {

/// The effects have each of the agents `to` store each of the aspects, as it is, once: aspect
/// by aspect, and each aspect agent by agent.
pub open spec fn stores_each(
    out: Seq<EffectView>,
    to: Seq<(Seq<char>, Seq<char>)>,
    space: Seq<char>,
    provider: Seq<char>,
    entry: EntryDataView,
) -> bool {
    &&& out.len() == entry.aspect_list.len() * to.len()
    &&& forall|k: int, j: int|
        #![trigger entry.aspect_list[k], to[j]]
        0 <= k < entry.aspect_list.len() && 0 <= j < to.len() ==> out[k * to.len() + j]
            == (EffectView::Send {
            agent: to[j].0,
            uri: to[j].1,
            message: WireMessageView::Lib3hToClient(
                Lib3hToClientView::HandleStoreEntryAspect(
                    StoreEntryAspectDataView {
                        request_id: Seq::empty(),
                        space_address: space,
                        provider_agent_id: provider,
                        entry_address: entry.entry_address,
                        entry_aspect: entry.aspect_list[k],
                    },
                ),
            ),
            logged: true,
        })
}

/// To store aspects, each goes to each of the agents, with all that it holds.
pub proof fn law_store(
    to: Seq<(Seq<char>, Seq<char>)>,
    space: Seq<char>,
    provider: Seq<char>,
    entry: EntryDataView,
)
    ensures
        stores_each(
            store_effects(to, space, provider, entry.entry_address, entry.aspect_list),
            to,
            space,
            provider,
            entry,
        ),
{
    let aspects = entry.aspect_list;
    law_store_count(to, space, provider, entry.entry_address, aspects);
    assert forall|k: int, j: int|
        #![trigger aspects[k], to[j]]
        0 <= k < aspects.len() && 0 <= j < to.len() implies store_effects(
        to,
        space,
        provider,
        entry.entry_address,
        aspects,
    )[k * to.len() + j] == sent(
        to[j].0,
        to[j].1,
        store_message(space, provider, entry.entry_address, aspects[k]),
    ) by {
        law_store_reaches_each(to, space, provider, entry.entry_address, aspects, k, j);
    }
}

/// A broadcast goes to each of the agents once, in their order.
pub proof fn law_broadcast(
    to: Seq<(Seq<char>, Seq<char>)>,
    message: WireMessageView,
    j: int,
)
    ensures
        broadcast_effects(to, message).len() == to.len(),
        0 <= j < to.len() ==> broadcast_effects(to, message)[j] == (EffectView::Send {
            agent: to[j].0,
            uri: to[j].1,
            message,
            logged: message != WireMessageView::Ping && message != WireMessageView::Pong,
        }),
{
}

/// The state `after` knows of `space` what `before` knows and the aspects of the entry, and is
/// else the same; of a space that does not exist nothing is learned.
pub open spec fn learned(
    before: ServerState,
    after: ServerState,
    space: Seq<char>,
    entry: EntryDataView,
) -> bool {
    &&& after.connections == before.connections
    &&& after.spaces.dom() == before.spaces.dom()
    &&& forall|other: Seq<char>|
        other != space && before.spaces.contains_key(other) ==> #[trigger] after.spaces[other]
            == before.spaces[other]
    &&& before.spaces.contains_key(space) ==> {
        let known = before.spaces[space];
        let now = after.spaces[space];
        &&& now.agents == known.agents
        &&& now.aspects.no_duplicates()
        &&& known.aspects.is_prefix_of(now.aspects)
        &&& forall|a: Aspect| #[trigger]
            now.aspects.contains(a) <==> known.aspects.contains(a) || exists|k: int|
                0 <= k < entry.aspect_list.len() && a == (
                    entry.entry_address,
                    (#[trigger] entry.aspect_list[k]).aspect_address,
                )
    }
}

/// To publish an entry teaches the space its aspects, and nothing else.
pub proof fn law_publishing_teaches(s: ServerState, space: Seq<char>, entry: EntryDataView)
    requires
        s.wf(),
    ensures
        learned(s, publish_state(s, space, entry), space, entry),
{
    let after = publish_state(s, space, entry);
    let addresses = aspect_addresses(entry.aspect_list);
    assert(after.spaces.dom() =~= s.spaces.dom());
    if s.spaces.contains_key(space) {
        let known = s.spaces[space].aspects;
        lemma_with_entry_aspects(known, entry.entry_address, addresses);
        assert forall|a: Aspect| #[trigger]
            after.spaces[space].aspects.contains(a) <==> known.contains(a) || exists|k: int|
                0 <= k < entry.aspect_list.len() && a == (
                    entry.entry_address,
                    (#[trigger] entry.aspect_list[k]).aspect_address,
                ) by {
            if a.0 == entry.entry_address && addresses.contains(a.1) {
                let k = choose|k: int| 0 <= k < addresses.len() && addresses[k] == a.1;
                assert(entry.aspect_list[k].aspect_address == a.1);
            }
            if exists|k: int|
                0 <= k < entry.aspect_list.len() && a == (
                    entry.entry_address,
                    (#[trigger] entry.aspect_list[k]).aspect_address,
                ) {
                let k = choose|k: int|
                    0 <= k < entry.aspect_list.len() && a == (
                        entry.entry_address,
                        (#[trigger] entry.aspect_list[k]).aspect_address,
                    );
                assert(addresses[k] == a.1);
            }
        }
    }
}

/// An entry that an agent publishes is taken exactly if it names the agent and its space. Then
/// the space learns its aspects, and every other agent of the space is sent each of them, as it
/// was published. Else nothing changes and nothing is sent.
pub proof fn law_publish(
    s: ServerState,
    uri: Seq<char>,
    space: Seq<char>,
    agent: Seq<char>,
    data: ProvidedEntryDataView,
    out: Seq<EffectView>,
)
    requires
        s.wf(),
        joined_emits(
            s,
            uri,
            space,
            agent,
            WireMessageView::ClientToLib3h(ClientToLib3hView::PublishEntry(data)),
            out,
        ),
    ensures
        ({
            let message = WireMessageView::ClientToLib3h(ClientToLib3hView::PublishEntry(data));
            let result = joined_result(s, uri, space, agent, message);
            let after = joined_state(s, uri, space, agent, message);
            if data.provider_agent_id == agent && data.space_address == space {
                &&& result == Ok::<(), Sim2hErrorView>(())
                &&& learned(s, after, space, data.entry)
                &&& stores_each(out, s.space(space).others(agent), space, agent, data.entry)
            } else {
                &&& result == Err::<(), Sim2hErrorView>(Sim2hErrorView::SpaceMismatch)
                &&& after == s
                &&& out.len() == 0
            }
        }),
{
    law_publishing_teaches(s, space, data.entry);
    law_store(s.space(space).others(agent), space, agent, data.entry);
}

/// Aspects that an agent hands over are taken exactly if the answer names the agent and its
/// space. Without a request id the space learns them, and every other agent of the space is sent
/// each of them, as it was handed over. With one, nothing is learned, and they go to the agent
/// that the request id names, if it is found in the space, and to nobody else.
pub proof fn law_fetch_answer(
    s: ServerState,
    uri: Seq<char>,
    space: Seq<char>,
    agent: Seq<char>,
    data: FetchEntryResultDataView,
    out: Seq<EffectView>,
)
    requires
        s.wf(),
        joined_emits(
            s,
            uri,
            space,
            agent,
            WireMessageView::Lib3hToClientResponse(
                Lib3hToClientResponseView::HandleFetchEntryResult(data),
            ),
            out,
        ),
    ensures
        ({
            let message = WireMessageView::Lib3hToClientResponse(
                Lib3hToClientResponseView::HandleFetchEntryResult(data),
            );
            let result = joined_result(s, uri, space, agent, message);
            let after = joined_state(s, uri, space, agent, message);
            if data.provider_agent_id == agent && data.space_address == space {
                &&& result == Ok::<(), Sim2hErrorView>(())
                &&& if data.request_id.len() == 0 {
                    &&& learned(s, after, space, data.entry)
                    &&& stores_each(out, s.space(space).others(agent), space, agent, data.entry)
                } else {
                    &&& after == s
                    &&& match s.uri_of(space, data.request_id) {
                        Some(at) => stores_each(
                            out,
                            seq![(data.request_id, at)],
                            space,
                            agent,
                            data.entry,
                        ),
                        None => out.len() == 0,
                    }
                }
            } else {
                &&& result == Err::<(), Sim2hErrorView>(Sim2hErrorView::SpaceMismatch)
                &&& after == s
                &&& out.len() == 0
            }
        }),
{
    law_publishing_teaches(s, space, data.entry);
    law_store(s.space(space).others(agent), space, agent, data.entry);
    if let Some(at) = s.uri_of(space, data.request_id) {
        law_store(seq![(data.request_id, at)], space, agent, data.entry);
    }
}

/// The aspects that an address map lists and that are not known.
pub open spec fn unseen(map: Seq<AddressMapItemView>, known: Seq<Aspect>) -> spec_fn(
    Aspect,
) -> bool {
    |a: Aspect| lists(map, a) && !known.contains(a)
}

/// The aspects that are known and that an address map does not list.
pub open spec fn lacked(map: Seq<AddressMapItemView>, known: Seq<Aspect>) -> spec_fn(
    Aspect,
) -> bool {
    |a: Aspect| known.contains(a) && !lists(map, a)
}

/// What an effect asks for, if it asks an agent for aspects.
pub open spec fn asked(effect: EffectView) -> Option<FetchEntryDataView> {
    match effect {
        EffectView::Send {
            message: WireMessageView::Lib3hToClient(Lib3hToClientView::HandleFetchEntry(data)),
            ..
        } => Some(data),
        _ => None,
    }
}

/// The effect asks the agent `provider` at `uri` for those of the wanted aspects that belong to
/// one entry: all of them, each once, and no others.
pub open spec fn fetches(
    effect: EffectView,
    uri: Seq<char>,
    space: Seq<char>,
    provider: Seq<char>,
    request_id: Seq<char>,
    wanted: spec_fn(Aspect) -> bool,
) -> bool {
    &&& effect matches EffectView::Send { agent: to, uri: at, logged, .. }
    &&& to == provider && at == uri && logged
    &&& asked(effect) matches Some(data)
    &&& data.space_address == space
    &&& data.provider_agent_id == provider
    &&& data.request_id == request_id
    &&& data.aspect_address_list matches Some(list)
    &&& list.len() > 0
    &&& list.no_duplicates()
    &&& forall|a: Seq<char>| #[trigger] list.contains(a) <==> wanted((data.entry_address, a))
}

/// The effects ask the agent `provider` at `uri` for the wanted aspects: entry by entry, and
/// each entry once.
pub open spec fn fetches_exactly(
    out: Seq<EffectView>,
    uri: Seq<char>,
    space: Seq<char>,
    provider: Seq<char>,
    request_id: Seq<char>,
    wanted: spec_fn(Aspect) -> bool,
) -> bool {
    &&& forall|i: int|
        0 <= i < out.len() ==> fetches(#[trigger] out[i], uri, space, provider, request_id, wanted)
    &&& forall|i: int, j: int|
        0 <= i < j < out.len() ==> asked(#[trigger] out[i])->0.entry_address != asked(
            #[trigger] out[j],
        )->0.entry_address
    &&& forall|a: Aspect| #[trigger]
        wanted(a) ==> exists|i: int|
            0 <= i < out.len() && asked(#[trigger] out[i])->0.entry_address == a.0
}

/// To fetch aspects, just those that are wanted are asked for.
pub proof fn law_fetch(
    uri: Seq<char>,
    space: Seq<char>,
    provider: Seq<char>,
    request_id: Seq<char>,
    list: Seq<Aspect>,
    wanted: spec_fn(Aspect) -> bool,
)
    requires
        list.no_duplicates(),
        forall|a: Aspect| #[trigger] list.contains(a) <==> wanted(a),
    ensures
        fetches_exactly(
            fetch_effects(uri, space, provider, request_id, list),
            uri,
            space,
            provider,
            request_id,
            wanted,
        ),
{
    let out = fetch_effects(uri, space, provider, request_id, list);
    let entries = entries_of(list);
    law_entries(list);
    assert forall|i: int| 0 <= i < out.len() implies fetches(
        #[trigger] out[i],
        uri,
        space,
        provider,
        request_id,
        wanted,
    ) && asked(out[i])->0.entry_address == entries[i] by {
        let e = entries[i];
        assert(entries.contains(e));
        assert forall|a: Seq<char>| #[trigger] aspects_of(list, e).contains(a) <==> wanted(
            (e, a),
        ) by {
            assert(list.contains((e, a)) <==> wanted((e, a)));
        }
    }
    assert forall|a: Aspect| #[trigger] wanted(a) implies exists|i: int|
        0 <= i < out.len() && asked(#[trigger] out[i])->0.entry_address == a.0 by {
        assert((a.0, a.1) == a);
        assert(list.contains(a));
        assert(aspects_of(list, a.0).contains(a.1));
        assert(entries.contains(a.0));
        let i = choose|i: int| 0 <= i < entries.len() && entries[i] == a.0;
        assert(asked(out[i])->0.entry_address == a.0);
    }
}

/// A list of what an agent authored is taken exactly if it names the agent and its space,
/// whatever it lists and whoever else is there. Then the agent is asked, without a request id,
/// for just what it lists and the space does not know. Nothing is learned of the list itself.
pub proof fn law_authoring_list(
    s: ServerState,
    uri: Seq<char>,
    space: Seq<char>,
    agent: Seq<char>,
    data: EntryListDataView,
    out: Seq<EffectView>,
)
    requires
        joined_emits(
            s,
            uri,
            space,
            agent,
            WireMessageView::Lib3hToClientResponse(
                Lib3hToClientResponseView::HandleGetAuthoringEntryListResult(data),
            ),
            out,
        ),
    ensures
        ({
            let message = WireMessageView::Lib3hToClientResponse(
                Lib3hToClientResponseView::HandleGetAuthoringEntryListResult(data),
            );
            let result = joined_result(s, uri, space, agent, message);
            &&& joined_state(s, uri, space, agent, message) == s
            &&& if data.provider_agent_id == agent && data.space_address == space {
                &&& result == Ok::<(), Sim2hErrorView>(())
                &&& fetches_exactly(
                    out,
                    uri,
                    space,
                    agent,
                    Seq::empty(),
                    unseen(data.address_map, s.space(space).aspects),
                )
            } else {
                &&& result == Err::<(), Sim2hErrorView>(Sim2hErrorView::SpaceMismatch)
                &&& out.len() == 0
            }
        }),
{
    let known = s.space(space).aspects;
    let listed = listed_aspects(data.address_map);
    law_listed(data.address_map);
    law_missing(listed, known);
    law_fetch(
        uri,
        space,
        agent,
        Seq::empty(),
        aspects_missing(listed, known),
        unseen(data.address_map, known),
    );
}

/// A list of what an agent holds is taken exactly if it names the agent and its space, whatever
/// it lists. Then, unless the space has just one agent, some other agent of the space is asked,
/// where it is found and with the first agent as the request id, for just what the space knows
/// and the list lacks. Nothing is learned of the list itself.
pub proof fn law_gossiping_list(
    s: ServerState,
    uri: Seq<char>,
    space: Seq<char>,
    agent: Seq<char>,
    data: EntryListDataView,
    out: Seq<EffectView>,
)
    requires
        s.wf(),
        joined_emits(
            s,
            uri,
            space,
            agent,
            WireMessageView::Lib3hToClientResponse(
                Lib3hToClientResponseView::HandleGetGossipingEntryListResult(data),
            ),
            out,
        ),
    ensures
        ({
            let message = WireMessageView::Lib3hToClientResponse(
                Lib3hToClientResponseView::HandleGetGossipingEntryListResult(data),
            );
            let result = joined_result(s, uri, space, agent, message);
            &&& joined_state(s, uri, space, agent, message) == s
            &&& if data.provider_agent_id == agent && data.space_address == space {
                &&& result == Ok::<(), Sim2hErrorView>(())
                &&& if s.space(space).agents.len() == 1 {
                    out.len() == 0
                } else {
                    exists|helper: Seq<char>|
                        helper != agent && (#[trigger] s.uri_of(space, helper)) is Some
                            && fetches_exactly(
                            out,
                            s.uri_of(space, helper)->0,
                            space,
                            helper,
                            agent,
                            lacked(data.address_map, s.space(space).aspects),
                        )
                }
            } else {
                &&& result == Err::<(), Sim2hErrorView>(Sim2hErrorView::SpaceMismatch)
                &&& out.len() == 0
            }
        }),
{
    let message = WireMessageView::Lib3hToClientResponse(
        Lib3hToClientResponseView::HandleGetGossipingEntryListResult(data),
    );
    let here = s.space(space);
    if data.provider_agent_id == agent && data.space_address == space && here.agents.len() != 1 {
        let others = here.others(agent);
        let pick = choose|pick: int|
            0 <= pick < others.len() && out == #[trigger] joined_effects(
                s,
                uri,
                space,
                agent,
                message,
                pick,
            );
        lemma_chosen(s, uri, space, agent, data, pick);
    }
}

proof fn lemma_chosen(
    s: ServerState,
    uri: Seq<char>,
    space: Seq<char>,
    agent: Seq<char>,
    data: EntryListDataView,
    pick: int,
)
    requires
        s.wf(),
        data.provider_agent_id == agent,
        data.space_address == space,
        s.space(space).agents.len() != 1,
        0 <= pick < s.space(space).others(agent).len(),
    ensures
        ({
            let message = WireMessageView::Lib3hToClientResponse(
                Lib3hToClientResponseView::HandleGetGossipingEntryListResult(data),
            );
            let helper = s.space(space).others(agent)[pick].0;
            &&& helper != agent
            &&& s.uri_of(space, helper) == Some(s.space(space).others(agent)[pick].1)
            &&& fetches_exactly(
                joined_effects(s, uri, space, agent, message, pick),
                s.uri_of(space, helper)->0,
                space,
                helper,
                agent,
                lacked(data.address_map, s.space(space).aspects),
            )
        }),
{
    let here = s.space(space);
    let others = here.others(agent);
    let helper = others[pick].0;
    law_others(here, agent);
    crate::keyed::lemma_place(others, pick);
    assert(lookup(others, helper) == Some(others[pick].1));
    let listed = listed_aspects(data.address_map);
    law_listed(data.address_map);
    law_missing(here.aspects, listed);
    law_fetch(
        others[pick].1,
        space,
        helper,
        agent,
        aspects_missing(here.aspects, listed),
        lacked(data.address_map, here.aspects),
    );
}

/// Each of the other agents of the space may be the one that is asked to help.
pub proof fn law_any_other_may_help(
    s: ServerState,
    uri: Seq<char>,
    space: Seq<char>,
    agent: Seq<char>,
    data: EntryListDataView,
    helper: Seq<char>,
)
    requires
        s.wf(),
        data.provider_agent_id == agent,
        data.space_address == space,
        s.space(space).agents.len() != 1,
        helper != agent,
        s.uri_of(space, helper) is Some,
    ensures
        exists|out: Seq<EffectView>| #[trigger]
            joined_emits(
                s,
                uri,
                space,
                agent,
                WireMessageView::Lib3hToClientResponse(
                    Lib3hToClientResponseView::HandleGetGossipingEntryListResult(data),
                ),
                out,
            ) && fetches_exactly(
                out,
                s.uri_of(space, helper)->0,
                space,
                helper,
                agent,
                lacked(data.address_map, s.space(space).aspects),
            ),
{
    let message = WireMessageView::Lib3hToClientResponse(
        Lib3hToClientResponseView::HandleGetGossipingEntryListResult(data),
    );
    let others = s.space(space).others(agent);
    law_others(s.space(space), agent);
    assert(lookup(others, helper) == s.uri_of(space, helper));
    let pick = crate::keyed::place_of(others, helper);
    assert(0 <= pick < others.len() && others[pick].0 == helper);
    lemma_chosen(s, uri, space, agent, data, pick);
    let out = joined_effects(s, uri, space, agent, message, pick);
    assert(joined_emits(s, uri, space, agent, message, out));
}

/// A direct message is taken exactly if it names its sender and the sender's space and is for
/// an agent of the space. Then it goes, as it is, to that agent where it is found, and to nobody
/// else. Nothing is learned.
pub proof fn law_direct_message(
    s: ServerState,
    uri: Seq<char>,
    space: Seq<char>,
    agent: Seq<char>,
    data: DirectMessageDataView,
    out: Seq<EffectView>,
)
    requires
        joined_emits(
            s,
            uri,
            space,
            agent,
            WireMessageView::ClientToLib3h(ClientToLib3hView::SendDirectMessage(data)),
            out,
        ),
    ensures
        ({
            let message = WireMessageView::ClientToLib3h(
                ClientToLib3hView::SendDirectMessage(data),
            );
            let result = joined_result(s, uri, space, agent, message);
            &&& joined_state(s, uri, space, agent, message) == s
            &&& if data.from_agent_id != agent || data.space_address != space {
                &&& result == Err::<(), Sim2hErrorView>(Sim2hErrorView::SpaceMismatch)
                &&& out.len() == 0
            } else {
                match s.uri_of(space, data.to_agent_id) {
                    None => {
                        &&& result == Err::<(), Sim2hErrorView>(
                            Sim2hErrorView::UnvalidatedProxyAgent(data.to_agent_id),
                        )
                        &&& out.len() == 0
                    },
                    Some(at) => {
                        &&& result == Ok::<(), Sim2hErrorView>(())
                        &&& out == seq![
                            EffectView::Send {
                                agent: data.to_agent_id,
                                uri: at,
                                message: WireMessageView::Lib3hToClient(
                                    Lib3hToClientView::HandleSendDirectMessage(data),
                                ),
                                logged: true,
                            },
                        ]
                    },
                }
            }
        }),
{
}

/// The answer to a direct message is taken exactly if it names its sender and the sender's
/// space and is for an agent of the space. Then it goes, as it is, to that agent where it is
/// found, and to nobody else. Nothing is learned.
pub proof fn law_direct_answer(
    s: ServerState,
    uri: Seq<char>,
    space: Seq<char>,
    agent: Seq<char>,
    data: DirectMessageDataView,
    out: Seq<EffectView>,
)
    requires
        joined_emits(
            s,
            uri,
            space,
            agent,
            WireMessageView::Lib3hToClientResponse(
                Lib3hToClientResponseView::HandleSendDirectMessageResult(data),
            ),
            out,
        ),
    ensures
        ({
            let message = WireMessageView::Lib3hToClientResponse(
                Lib3hToClientResponseView::HandleSendDirectMessageResult(data),
            );
            let result = joined_result(s, uri, space, agent, message);
            &&& joined_state(s, uri, space, agent, message) == s
            &&& if data.from_agent_id != agent || data.space_address != space {
                &&& result == Err::<(), Sim2hErrorView>(Sim2hErrorView::SpaceMismatch)
                &&& out.len() == 0
            } else {
                match s.uri_of(space, data.to_agent_id) {
                    None => {
                        &&& result == Err::<(), Sim2hErrorView>(
                            Sim2hErrorView::UnvalidatedProxyAgent(data.to_agent_id),
                        )
                        &&& out.len() == 0
                    },
                    Some(at) => {
                        &&& result == Ok::<(), Sim2hErrorView>(())
                        &&& out == seq![
                            EffectView::Send {
                                agent: data.to_agent_id,
                                uri: at,
                                message: WireMessageView::Lib3hToClient(
                                    Lib3hToClientView::SendDirectMessageResult(data),
                                ),
                                logged: true,
                            },
                        ]
                    },
                }
            }
        }),
{
}

/// An agent may leave exactly the space that was joined on its connection, and only as the
/// agent that joined it. That ends the connection; else nothing changes.
pub proof fn law_leave(s: ServerState, uri: Seq<char>, data: SpaceDataView)
    ensures
        if s.connections.contains_key(uri) && s.connections[uri] is Joined {
            if s.connections[uri] == (ConnectionView::Joined {
                space: data.space_address,
                agent: data.agent_id,
            }) {
                &&& leave_result(s, uri, data) == Ok::<(), Sim2hErrorView>(())
                &&& leave_state(s, uri, data) == disconnect_state(s, uri)
            } else {
                &&& leave_result(s, uri, data) == Err::<(), Sim2hErrorView>(
                    Sim2hErrorView::SpaceMismatch,
                )
                &&& leave_state(s, uri, data) == s
            }
        } else {
            &&& leave_result(s, uri, data) == Err::<(), Sim2hErrorView>(
                Sim2hErrorView::NotJoined(uri),
            )
            &&& leave_state(s, uri, data) == s
        },
{
}

/// A message by which an agent leaves does what leaving does, and sends nothing.
pub proof fn law_leave_message(
    s: ServerState,
    uri: Seq<char>,
    space: Seq<char>,
    agent: Seq<char>,
    data: SpaceDataView,
    out: Seq<EffectView>,
)
    requires
        joined_emits(
            s,
            uri,
            space,
            agent,
            WireMessageView::ClientToLib3h(ClientToLib3hView::LeaveSpace(data)),
            out,
        ),
    ensures
        ({
            let message = WireMessageView::ClientToLib3h(ClientToLib3hView::LeaveSpace(data));
            &&& joined_result(s, uri, space, agent, message) == leave_result(s, uri, data)
            &&& joined_state(s, uri, space, agent, message) == leave_state(s, uri, data)
            &&& out.len() == 0
        }),
{
}

/// A message of any other kind is refused, changes nothing, and has nothing sent.
pub proof fn law_other_message(
    s: ServerState,
    uri: Seq<char>,
    space: Seq<char>,
    agent: Seq<char>,
    message: WireMessageView,
    out: Seq<EffectView>,
)
    requires
        joined_emits(s, uri, space, agent, message, out),
        match message {
            WireMessageView::ClientToLib3h(request) => request is JoinSpace || request is Other,
            WireMessageView::Lib3hToClientResponse(answer) => answer is Other,
            _ => true,
        },
    ensures
        joined_result(s, uri, space, agent, message) == Err::<(), Sim2hErrorView>(
            match message {
                WireMessageView::ClientToLib3h(ClientToLib3hView::JoinSpace(_)) => {
                    Sim2hErrorView::JoinNotProxied
                },
                _ => Sim2hErrorView::NotImplemented(message),
            },
        ),
        joined_state(s, uri, space, agent, message) == s,
        out.len() == 0,
{
}

/// The server can serve any message of an agent that is in a space that exists, but for those
/// that only the server sends, and for a list of what the agent holds where the space has no
/// agents at all.
pub proof fn law_joined_can_be_served(
    s: ServerState,
    space: Seq<char>,
    agent: Seq<char>,
    message: WireMessageView,
)
    requires
        s.wf(),
        s.spaces.contains_key(space),
    ensures
        !joined_ok(s, space, agent, message) <==> match message {
            WireMessageView::Lib3hToClient(_) => true,
            WireMessageView::ClientToLib3hResponse(_) => true,
            WireMessageView::Lib3hToClientResponse(
                Lib3hToClientResponseView::HandleGetGossipingEntryListResult(data),
            ) => data.provider_agent_id == agent && data.space_address == space
                && s.spaces[space].agents.len() == 0,
            _ => false,
        },
{
    let here = s.spaces[space];
    reveal(Seq::filter);
    if here.agents.len() > 1 {
        lemma_others_nonempty(here, agent);
    }
}

/// In a space that does not exist, the server can also not serve a list, nor an entry with
/// aspects that is published or handed over without a request id, of the agent itself.
pub proof fn law_needs_a_space(
    s: ServerState,
    space: Seq<char>,
    agent: Seq<char>,
    message: WireMessageView,
)
    requires
        !s.spaces.contains_key(space),
    ensures
        !joined_ok(s, space, agent, message) <==> match message {
            WireMessageView::Lib3hToClient(_) => true,
            WireMessageView::ClientToLib3hResponse(_) => true,
            WireMessageView::ClientToLib3h(ClientToLib3hView::PublishEntry(data)) => {
                data.provider_agent_id == agent && data.space_address == space
                    && data.entry.aspect_list.len() > 0
            },
            WireMessageView::Lib3hToClientResponse(
                Lib3hToClientResponseView::HandleGetAuthoringEntryListResult(data),
            ) => data.provider_agent_id == agent && data.space_address == space,
            WireMessageView::Lib3hToClientResponse(
                Lib3hToClientResponseView::HandleGetGossipingEntryListResult(data),
            ) => data.provider_agent_id == agent && data.space_address == space,
            WireMessageView::Lib3hToClientResponse(
                Lib3hToClientResponseView::HandleFetchEntryResult(data),
            ) => data.provider_agent_id == agent && data.space_address == space
                && data.request_id.len() == 0 && data.entry.aspect_list.len() > 0,
            _ => false,
        },
{
}

} // verus!
