//! The server: it tracks connections and spaces, and routes messages between the agents of a
//! space.

use crate::cache::{
    aspects_missing, aspects_of, entries_of, is_other_than, listed_aspects, with_aspect, Aspect,
    AspectList, Space, SpaceView,
};
use crate::connection_state::{message_views, ConnectionState, ConnectionView};
use crate::data_types::{
    address_map_view, texts, AddressMapItem, AgentId, DirectMessageData, EntryData, EntryDataView,
    FetchEntryData, FetchEntryResultData, GetListData, Lib3hUri, SpaceData, SpaceDataView,
    SpaceHash, StoreEntryAspectData,
};
use crate::effect::{effect_views, sent, Effect, EffectView};
use crate::error::{result_view, Sim2hError, Sim2hErrorView, Sim2hResult};
use crate::invariants::{
    lemma_connect_wf, lemma_disconnect_wf, lemma_enter_wf, lemma_message_wf, lemma_others_nonempty,
    lemma_publish_wf, lemma_replay_connection, lemma_replay_step, lemma_replay_wf,
};
use crate::keyed::{
    as_map, distinct_keys, has_key, lemma_filter, lemma_filter_all, lemma_place, lemma_put,
    lemma_same_keys, lemma_without, lookup, place_of, TextMap,
};
use crate::rules::{
    abandoned, aspect_addresses, authoring_request, broadcast_effects, connect_state,
    direct_result, disconnect_state, enter_effects, enter_state, fetch_effects, fetch_message,
    fetched_effects, gossiping_request, in_limbo, join_emits, join_ok, join_result, join_state,
    joined_effects, joined_emits, joined_ok, joined_result, joined_state, leave_result,
    leave_state, leaves, message_emits, message_ok, message_result, message_state, pending_ok,
    publish_state, replay_emits, replay_state, server_only, store_effects, store_message, waits,
    ServerState,
};
use crate::wire_message::{
    ClientToLib3h, Lib3hToClient, Lib3hToClientResponse, Lib3hToClientView, WireError,
    WireErrorView, WireMessage, WireMessageView,
};
use vstd::prelude::*;

verus! {

/// The server.
pub struct Sim2h {
    /// Where the server listens.
    pub bound_uri: Option<Lib3hUri>,
    connection_states: TextMap<ConnectionState>,
    spaces: TextMap<Space>,
    outbox: Vec<Effect>,
    num_ticks: u32,
}

/// Those of the agents to whom a broadcast goes.
pub open spec fn recipients(space: SpaceView, except: Option<&AgentId>) -> Seq<
    (Seq<char>, Seq<char>),
> {
    match except {
        Some(agent) => space.others(agent@),
        None => space.agents,
    }
}

/// A broadcast goes to every agent of the space, or to all but the one that is left out.
pub proof fn law_recipients(space: SpaceView, except: Option<&AgentId>, agent: Seq<char>)
    requires
        space.wf(),
    ensures
        distinct_keys(recipients(space, except)),
        lookup(recipients(space, except), agent) == if except matches Some(left) && left@
            == agent {
            None
        } else {
            lookup(space.agents, agent)
        },
{
    if let Some(left) = except {
        lemma_filter(space.agents, is_other_than(left@));
    }
}

/// The views of agents with their connections.
pub open spec fn agent_views(agents: Seq<(AgentId, Lib3hUri)>) -> Seq<(Seq<char>, Seq<char>)> {
    agents.map_values(|a: (AgentId, Lib3hUri)| (a.0@, a.1@))
}

/// The agents of a space, or all but one of them.
fn select_agents(space: &Space, except: Option<&AgentId>) -> (agents: Vec<(AgentId, Lib3hUri)>)
    ensures
        agent_views(agents@) == recipients(space@, except),
{
    let all = space.all_agents();
    let mut agents: Vec<(AgentId, Lib3hUri)> = Vec::new();
    let ghost keep = match except {
        Some(agent) => is_other_than(agent@),
        None => |a: (Seq<char>, Seq<char>)| true,
    };
    assert(agent_views(agents@) =~= all@.take(0).filter(keep));
    let n: usize = all.len();
    for i in 0..n
        invariant
            n == all@.len(),
            all@ == space@.agents,
            match except {
                Some(agent) => keep == is_other_than(agent@),
                None => keep == (|a: (Seq<char>, Seq<char>)| true),
            },
            agent_views(agents@) == all@.take(i as int).filter(keep),
    {
        let ghost before = agent_views(agents@);
        let kept = match except {
            Some(agent) => !(*all.key_at(i) == *agent),
            None => true,
        };
        if kept {
            agents.push((all.key_at(i).clone(), all.value_at(i).clone()));
            assert(agent_views(agents@) =~= before.push(all@[i as int]));
        }
        assert(all@.take(i + 1).drop_last() =~= all@.take(i as int));
        reveal(Seq::filter);
    }
    assert(all@.take(all@.len() as int) =~= all@);
    proof {
        if except is None {
            lemma_filter_all(all@, keep);
        }
    }
    agents
}

impl Sim2h {
    /// What the server knows.
    pub closed spec fn state(&self) -> ServerState {
        ServerState {
            connections: as_map(self.connection_states@),
            spaces: as_map(self.spaces@),
        }
    }

    /// What the server has asked for and was not yet taken from it.
    pub closed spec fn outbox(&self) -> Seq<EffectView> {
        effect_views(self.outbox@)
    }

    /// What the server has asked for since it had asked for `before`.
    pub open spec fn added_since(&self, before: Seq<EffectView>) -> Seq<EffectView> {
        self.outbox().skip(before.len() as int)
    }

    /// What was added is what came behind what was there.
    pub proof fn law_added(&self, before: Seq<EffectView>, added: Seq<EffectView>)
        requires
            self.outbox() == before + added,
        ensures
            self.added_since(before) == added,
    {
        assert(self.added_since(before) =~= added);
    }

    /// The number of times that the transport was polled, counted from zero again at 60000.
    pub closed spec fn ticks(&self) -> nat {
        self.num_ticks as nat
    }

    /// Where the server listens.
    pub closed spec fn bound(&self) -> Option<Seq<char>> {
        match self.bound_uri {
            Some(uri) => Some(uri@),
            None => None,
        }
    }

    /// What no message changes: where the server listens, and the count of polls.
    pub open spec fn idle_part(&self) -> (Option<Seq<char>>, nat) {
        (self.bound(), self.ticks())
    }

    /// Where no message has changed it, the server listens where it did and has counted as it
    /// had.
    pub proof fn law_idle_part(&self, other: &Sim2h)
        requires
            self.idle_part() == other.idle_part(),
        ensures
            self.bound() == other.bound(),
            self.ticks() == other.ticks(),
    {
    }

    /// The server is in a state that it can reach.
    pub closed spec fn wf(&self) -> bool {
        &&& distinct_keys(self.connection_states@)
        &&& distinct_keys(self.spaces@)
        &&& self.state().wf()
        &&& self.num_ticks < 60000
    }

    /// The count of polls stays below 60000.
    pub proof fn law_ticks_are_bounded(&self)
        requires
            self.wf(),
        ensures
            self.ticks() < 60000,
    {
    }

    /// What a server knows is well formed.
    pub proof fn law_state_is_wf(&self)
        requires
            self.wf(),
        ensures
            self.state().wf(),
    {
    }

    /// A server that listens at `bound_uri` and to which nobody has connected.
    pub fn new(bound_uri: Lib3hUri) -> (server: Self)
        ensures
            server.wf(),
            server.bound() == Some(bound_uri@),
            server.state() == ServerState::empty(),
            server.outbox() == Seq::<EffectView>::empty(),
            server.ticks() == 0,
    {
        let server = Sim2h {
            bound_uri: Some(bound_uri),
            connection_states: TextMap::new(),
            spaces: TextMap::new(),
            outbox: Vec::new(),
            num_ticks: 0,
        };
        assert(server.state() =~= ServerState::empty());
        assert(server.outbox() =~= Seq::<EffectView>::empty());
        server
    }

    /// Hands out what the server has asked for.
    pub fn take_outbox(&mut self) -> (effects: Vec<Effect>)
        requires
            old(self).wf(),
        ensures
            final(self).wf(),
            effect_views(effects@) == old(self).outbox(),
            final(self).outbox() == Seq::<EffectView>::empty(),
            final(self).state() == old(self).state(),
            final(self).idle_part() == old(self).idle_part(),
    {
        let mut effects: Vec<Effect> = Vec::new();
        std::mem::swap(&mut effects, &mut self.outbox);
        assert(self.outbox() =~= Seq::<EffectView>::empty());
        effects
    }

    /// Has a message sent. The message log keeps all but pings and pongs.
    fn send(&mut self, agent: AgentId, uri: Lib3hUri, msg: &WireMessage)
        requires
            old(self).wf(),
        ensures
            final(self).wf(),
            final(self).outbox() == old(self).outbox().push(sent(agent@, uri@, msg@)),
            final(self).state() == old(self).state(),
            final(self).idle_part() == old(self).idle_part(),
    {
        let logged = match msg {
            WireMessage::Ping | WireMessage::Pong => false,
            _ => true,
        };
        self.outbox.push(Effect::Send { agent, uri, message: msg.clone(), logged });
        assert(self.outbox() =~= old(self).outbox().push(sent(agent@, uri@, msg@)));
    }

    /// The state of a connection.
    pub fn get_connection(&self, uri: &Lib3hUri) -> (state: Option<ConnectionState>)
        requires
            self.wf(),
        ensures
            match state {
                Some(c) => self.state().connection(uri@) == Some(c@),
                None => self.state().connection(uri@) is None,
            },
    {
        match self.connection_states.get(uri) {
            Some(state) => Some(state.clone()),
            None => None,
        }
    }

    /// Where an agent of a space is found.
    pub fn lookup_joined(&self, space_address: &SpaceHash, agent_id: &AgentId) -> (uri: Option<
        Lib3hUri,
    >)
        requires
            self.wf(),
        ensures
            match uri {
                Some(u) => self.state().uri_of(space_address@, agent_id@) == Some(u@),
                None => self.state().uri_of(space_address@, agent_id@) is None,
            },
    {
        match self.spaces.get(space_address) {
            Some(space) => {
                assert(self.state().spaces.contains_key(space_address@));
                space.agent_id_to_uri(agent_id)
            },
            None => None,
        }
    }

    /// Notes a new connection, in limbo.
    pub fn handle_incoming_connect(&mut self, uri: Lib3hUri) -> (result: Sim2hResult<bool>)
        requires
            old(self).wf(),
        ensures
            final(self).wf(),
            result == Ok::<bool, Sim2hError>(true),
            final(self).state() == connect_state(old(self).state(), uri@),
            final(self).outbox() == old(self).outbox(),
            final(self).idle_part() == old(self).idle_part(),
    {
        proof {
            lemma_connect_wf(self.state(), uri@);
            lemma_put(
                self.connection_states@,
                uri@,
                ConnectionView::Limbo { pending: Seq::empty() },
            );
        }
        let _ = self.connection_states.insert(uri, ConnectionState::new());
        Ok(true)
    }

    /// Ends a connection, removes its agent from its space, and whoever else is found at the
    /// connection from every space.
    pub fn disconnect(&mut self, uri: &Lib3hUri)
        requires
            old(self).wf(),
        ensures
            final(self).wf(),
            final(self).state() == disconnect_state(old(self).state(), uri@),
            final(self).outbox() == old(self).outbox(),
            final(self).idle_part() == old(self).idle_part(),
    {
        let ghost before = self.state();
        proof {
            lemma_disconnect_wf(before, uri@);
            lemma_without(self.connection_states@, uri@);
        }
        if let Some(ConnectionState::Joined(space_address, agent_id)) =
            self.connection_states.remove(uri) {
            assert(before.connections[uri@] == (ConnectionView::Joined {
                space: space_address@,
                agent: agent_id@,
            }));
            assert(before.spaces.contains_key(space_address@));
            proof {
                lemma_put(
                    self.spaces@,
                    space_address@,
                    before.space(space_address@).without_agent(agent_id@),
                );
                lemma_without(before.space(space_address@).agents, agent_id@);
            }
            self.spaces.get_mut(&space_address).remove_agent(&agent_id);
        }
        let ghost left = self.spaces@;
        let ghost connections = self.connection_states@;
        assert forall|i: int| 0 <= i < left.len() implies (#[trigger] left[i]).1.wf()
            && left[i].1.without_uri(uri@) == abandoned(before, uri@, left[i].0) by {
            lemma_place(left, i);
            assert(has_key(left, left[i].0));
            assert(before.spaces.contains_key(left[i].0));
        }
        let n: usize = self.spaces.len();
        for i in 0..n
            invariant
                n == left.len(),
                self.spaces@.len() == n,
                forall|j: int| 0 <= j < n ==> (#[trigger] left[j]).1.wf(),
                forall|j: int|
                    0 <= j < i ==> #[trigger] self.spaces@[j] == (
                        left[j].0,
                        left[j].1.without_uri(uri@),
                    ),
                forall|j: int| i <= j < n ==> #[trigger] self.spaces@[j] == left[j],
                self.connection_states@ == connections,
                self.outbox() == old(self).outbox(),
                self.idle_part() == old(self).idle_part(),
        {
            self.spaces.value_mut_at(i).remove_uri(uri);
        }
        proof {
            lemma_same_keys(left, self.spaces@);
            assert forall|space: Seq<char>| #[trigger] has_key(left, space) implies lookup(
                self.spaces@,
                space,
            ) == Some(abandoned(before, uri@, space)) by {
                let i = place_of(left, space);
                assert(left[i].0 == space);
                assert(self.spaces@[i] == (left[i].0, left[i].1.without_uri(uri@)));
            }
            assert(self.state() =~= disconnect_state(before, uri@));
        }
    }

    /// Has an agent leave its space, which ends its connection.
    pub fn leave(&mut self, uri: &Lib3hUri, data: &SpaceData) -> (result: Sim2hResult<()>)
        requires
            old(self).wf(),
        ensures
            final(self).wf(),
            result_view(result) == leave_result(old(self).state(), uri@, data@),
            final(self).state() == leave_state(old(self).state(), uri@, data@),
            final(self).outbox() == old(self).outbox(),
            final(self).idle_part() == old(self).idle_part(),
    {
        if let Some(ConnectionState::Joined(space_address, agent_id)) = self.get_connection(uri) {
            if !(data.agent_id == agent_id) || !(data.space_address == space_address) {
                Err(Sim2hError::SpaceMismatch)
            } else {
                self.disconnect(uri);
                Ok(())
            }
        } else {
            Err(Sim2hError::NotJoined(uri.clone()))
        }
    }

    /// Asks an agent for the entries that it authored.
    fn request_authoring_list(
        &mut self,
        uri: Lib3hUri,
        space_address: SpaceHash,
        provider_agent_id: AgentId,
    )
        requires
            old(self).wf(),
        ensures
            final(self).wf(),
            final(self).outbox() == old(self).outbox().push(
                sent(
                    provider_agent_id@,
                    uri@,
                    authoring_request(space_address@, provider_agent_id@),
                ),
            ),
            final(self).state() == old(self).state(),
            final(self).idle_part() == old(self).idle_part(),
    {
        let wire_message = WireMessage::Lib3hToClient(
            Lib3hToClient::HandleGetAuthoringEntryList(
                GetListData {
                    request_id: String::new(),
                    space_address,
                    provider_agent_id: provider_agent_id.clone(),
                },
            ),
        );
        assert(wire_message@ == authoring_request(space_address@, provider_agent_id@));
        self.send(provider_agent_id, uri, &wire_message);
    }

    /// Asks an agent for the entries that it holds.
    fn request_gossiping_list(
        &mut self,
        uri: Lib3hUri,
        space_address: SpaceHash,
        provider_agent_id: AgentId,
    )
        requires
            old(self).wf(),
        ensures
            final(self).wf(),
            final(self).outbox() == old(self).outbox().push(
                sent(
                    provider_agent_id@,
                    uri@,
                    gossiping_request(space_address@, provider_agent_id@),
                ),
            ),
            final(self).state() == old(self).state(),
            final(self).idle_part() == old(self).idle_part(),
    {
        let wire_message = WireMessage::Lib3hToClient(
            Lib3hToClient::HandleGetGossipingEntryList(
                GetListData {
                    request_id: String::new(),
                    space_address,
                    provider_agent_id: provider_agent_id.clone(),
                },
            ),
        );
        assert(wire_message@ == gossiping_request(space_address@, provider_agent_id@));
        self.send(provider_agent_id, uri, &wire_message);
    }

    /// Sends a message to every agent of a space, or to all but one.
    pub fn broadcast(
        &mut self,
        space: SpaceHash,
        msg: &WireMessage,
        except: Option<&AgentId>,
    ) -> (result: Sim2hResult<()>)
        requires
            old(self).wf(),
        ensures
            final(self).wf(),
            result_view(result) == if old(self).state().spaces.contains_key(space@) {
                Ok::<(), Sim2hErrorView>(())
            } else {
                Err(Sim2hErrorView::NoSuchSpace)
            },
            final(self).outbox() == old(self).outbox() + broadcast_effects(
                recipients(old(self).state().space(space@), except),
                msg@,
            ),
            final(self).state() == old(self).state(),
            final(self).idle_part() == old(self).idle_part(),
    {
        let all_agents = match self.spaces.get(&space) {
            Some(s) => select_agents(s, except),
            None => {
                proof {
                    let none = recipients(old(self).state().space(space@), except);
                    reveal(Seq::filter);
                    assert(none =~= Seq::empty());
                    assert(old(self).outbox() + broadcast_effects(none, msg@)
                        =~= old(self).outbox());
                }
                return Err(Sim2hError::NoSuchSpace);
            },
        };
        let ghost agents = agent_views(all_agents@);
        let ghost effects = broadcast_effects(agents, msg@);
        assert(self.outbox() =~= old(self).outbox() + effects.take(0));
        for i in 0..all_agents.len()
            invariant
                self.wf(),
                agents == agent_views(all_agents@),
                effects == broadcast_effects(agents, msg@),
                self.outbox() == old(self).outbox() + effects.take(i as int),
                self.state() == old(self).state(),
                self.idle_part() == old(self).idle_part(),
        {
            let (agent, uri) = &all_agents[i];
            self.send(agent.clone(), uri.clone(), msg);
            assert(agents[i as int] == (agent@, uri@));
            assert(effects.take(i + 1) =~= effects.take(i as int).push(
                sent(agent@, uri@, msg@),
            ));
            assert(self.outbox() =~= old(self).outbox() + effects.take(i + 1));
        }
        assert(effects.take(effects.len() as int) =~= effects);
        Ok(())
    }

    /// Notes the aspects of an entry that is new to a space, and has every other agent of the
    /// space store them.
    pub fn handle_new_entry_data(
        &mut self,
        entry_data: EntryData,
        space_address: SpaceHash,
        provider: AgentId,
    )
        requires
            old(self).wf(),
            entry_data@.aspect_list.len() > 0 ==> old(self).state().spaces.contains_key(
                space_address@,
            ),
        ensures
            final(self).wf(),
            final(self).state() == publish_state(
                old(self).state(),
                space_address@,
                entry_data@,
            ),
            final(self).outbox() == old(self).outbox() + store_effects(
                old(self).state().space(space_address@).others(provider@),
                space_address@,
                provider@,
                entry_data@.entry_address,
                entry_data@.aspect_list,
            ),
            final(self).idle_part() == old(self).idle_part(),
    {
        let ghost before = self.state();
        let ghost space = space_address@;
        let ghost entry = entry_data@.entry_address;
        let ghost aspects = entry_data@.aspect_list;
        let ghost others = before.space(space).others(provider@);
        let ghost known = |n: int|
            EntryDataView { entry_address: entry, aspect_list: aspects.take(n) };
        proof {
            assert(aspect_addresses(aspects.take(0)) =~= Seq::<Seq<char>>::empty());
            assert(publish_state(before, space, known(0)) =~= before);
            assert(self.outbox() =~= old(self).outbox() + store_effects(
                others,
                space,
                provider@,
                entry,
                aspects.take(0),
            ));
        }
        for i in 0..entry_data.aspect_list.len()
            invariant
                self.wf(),
                space == space_address@,
                entry == entry_data@.entry_address,
                aspects == entry_data@.aspect_list,
                before == old(self).state(),
                before.wf(),
                aspects.len() > 0 ==> before.spaces.contains_key(space),
                others == before.space(space).others(provider@),
                known == (|n: int|
                    EntryDataView { entry_address: entry, aspect_list: aspects.take(n) }),
                self.state() == publish_state(before, space, known(i as int)),
                self.outbox() == old(self).outbox() + store_effects(
                    others,
                    space,
                    provider@,
                    entry,
                    aspects.take(i as int),
                ),
                self.idle_part() == old(self).idle_part(),
        {
            let aspect = &entry_data.aspect_list[i];
            let ghost noted = self.state();
            proof {
                assert(aspects[i as int] == aspect@);
                assert(aspects.take(i + 1).drop_last() =~= aspects.take(i as int));
                assert(aspect_addresses(aspects.take(i + 1)).drop_last()
                    =~= aspect_addresses(aspects.take(i as int)));
                assert(aspect_addresses(aspects.take(i + 1)).last() == aspect@.aspect_address);
                assert(publish_state(before, space, known(i + 1)).space(space).aspects
                    == with_aspect(noted.space(space).aspects, (entry, aspect@.aspect_address)));
                lemma_put(
                    self.spaces@,
                    space,
                    publish_state(before, space, known(i + 1)).space(space),
                );
                lemma_publish_wf(before, space, known(i + 1));
            }
            self.spaces.get_mut(&space_address).add_aspect(
                entry_data.entry_address.clone(),
                aspect.aspect_address.clone(),
            );
            assert(self.state() =~= publish_state(before, space, known(i + 1)));
            let message = WireMessage::Lib3hToClient(
                Lib3hToClient::HandleStoreEntryAspect(
                    StoreEntryAspectData {
                        request_id: String::new(),
                        space_address: space_address.clone(),
                        provider_agent_id: provider.clone(),
                        entry_address: entry_data.entry_address.clone(),
                        entry_aspect: aspect.clone(),
                    },
                ),
            );
            assert(message@ == store_message(space, provider@, entry, aspect@));
            let _ = self.broadcast(space_address.clone(), &message, Some(&provider));
            assert(self.outbox() =~= old(self).outbox() + store_effects(
                others,
                space,
                provider@,
                entry,
                aspects.take(i + 1),
            ));
        }
        assert(aspects.take(aspects.len() as int) =~= aspects);
    }

    /// Asks an agent for some aspects, entry by entry.
    fn request_aspects(
        &mut self,
        uri: &Lib3hUri,
        space_address: &SpaceHash,
        provider: &AgentId,
        request_id: &String,
        wanted: &AspectList,
    )
        requires
            old(self).wf(),
        ensures
            final(self).wf(),
            final(self).outbox() == old(self).outbox() + fetch_effects(
                uri@,
                space_address@,
                provider@,
                request_id@,
                wanted@,
            ),
            final(self).state() == old(self).state(),
            final(self).idle_part() == old(self).idle_part(),
    {
        let entries = wanted.entry_addresses();
        let ghost effects = fetch_effects(
            uri@,
            space_address@,
            provider@,
            request_id@,
            wanted@,
        );
        assert(self.outbox() =~= old(self).outbox() + effects.take(0));
        for i in 0..entries.len()
            invariant
                self.wf(),
                texts(entries@) == entries_of(wanted@),
                effects == fetch_effects(
                    uri@,
                    space_address@,
                    provider@,
                    request_id@,
                    wanted@,
                ),
                self.outbox() == old(self).outbox() + effects.take(i as int),
                self.state() == old(self).state(),
                self.idle_part() == old(self).idle_part(),
        {
            let entry_address = &entries[i];
            assert(entries_of(wanted@)[i as int] == entry_address@);
            proof {
                lemma_entry_has_aspects(wanted@, entry_address@);
            }
            if let Some(aspect_address_list) = wanted.per_entry(entry_address) {
                let wire_message = WireMessage::Lib3hToClient(
                    Lib3hToClient::HandleFetchEntry(
                        FetchEntryData {
                            request_id: request_id.clone(),
                            space_address: space_address.clone(),
                            provider_agent_id: provider.clone(),
                            entry_address: entry_address.clone(),
                            aspect_address_list: Some(aspect_address_list),
                        },
                    ),
                );
                assert(wire_message@ == fetch_message(
                    space_address@,
                    provider@,
                    request_id@,
                    entry_address@,
                    aspects_of(wanted@, entry_address@),
                ));
                self.send(provider.clone(), uri.clone(), &wire_message);
                assert(effects.take(i + 1) =~= effects.take(i as int).push(effects[i as int]));
                assert(self.outbox() =~= old(self).outbox() + effects.take(i + 1));
            }
        }
        assert(effects.take(effects.len() as int) =~= effects);
    }

    /// Has one of the other agents of a space, the one in the place `pick`, hand over what the
    /// space holds and `agent_id` does not list.
    pub fn fetch_missing(
        &mut self,
        space_address: &SpaceHash,
        agent_id: &AgentId,
        address_map: &Vec<AddressMapItem>,
        pick: usize,
    )
        requires
            old(self).wf(),
            old(self).state().spaces.contains_key(space_address@),
            pick < old(self).state().space(space_address@).others(agent_id@).len(),
        ensures
            final(self).wf(),
            final(self).outbox() == old(self).outbox() + fetch_effects(
                old(self).state().space(space_address@).others(agent_id@)[pick as int].1,
                space_address@,
                old(self).state().space(space_address@).others(agent_id@)[pick as int].0,
                agent_id@,
                aspects_missing(
                    old(self).state().space(space_address@).aspects,
                    listed_aspects(address_map_view(address_map@)),
                ),
            ),
            final(self).state() == old(self).state(),
            final(self).idle_part() == old(self).idle_part(),
    {
        let space = self.spaces.get(space_address).unwrap();
        let missing = space.all_aspects().diff(&AspectList::from(address_map));
        let others = select_agents(space, Some(agent_id));
        let (chosen, uri) = &others[pick];
        assert(agent_views(others@)[pick as int] == (chosen@, uri@));
        self.request_aspects(uri, space_address, chosen, agent_id, &missing);
    }

    /// Passes a direct message, or the answer to one, on to the agent that it is for.
    fn forward(
        &mut self,
        space_address: &SpaceHash,
        agent_id: &AgentId,
        dm_data: DirectMessageData,
        is_result: bool,
    ) -> (result: Sim2hResult<()>)
        requires
            old(self).wf(),
        ensures
            final(self).wf(),
            result_view(result) == direct_result(
                old(self).state(),
                space_address@,
                agent_id@,
                dm_data@,
            ),
            final(self).outbox() == if result is Ok {
                old(self).outbox().push(
                    sent(
                        dm_data@.to_agent_id,
                        old(self).state().uri_of(space_address@, dm_data@.to_agent_id)->0,
                        WireMessageView::Lib3hToClient(
                            if is_result {
                                Lib3hToClientView::SendDirectMessageResult(dm_data@)
                            } else {
                                Lib3hToClientView::HandleSendDirectMessage(dm_data@)
                            },
                        ),
                    ),
                )
            } else {
                old(self).outbox()
            },
            final(self).state() == old(self).state(),
            final(self).idle_part() == old(self).idle_part(),
    {
        if !(dm_data.from_agent_id == *agent_id) || !(dm_data.space_address == *space_address) {
            return Err(Sim2hError::SpaceMismatch);
        }
        let to_url = match self.lookup_joined(space_address, &dm_data.to_agent_id) {
            Some(to_url) => to_url,
            None => return Err(Sim2hError::UnvalidatedProxyAgent(dm_data.to_agent_id.clone())),
        };
        let to_agent_id = dm_data.to_agent_id.clone();
        let message = if is_result {
            Lib3hToClient::SendDirectMessageResult(dm_data)
        } else {
            Lib3hToClient::HandleSendDirectMessage(dm_data)
        };
        self.send(to_agent_id, to_url, &WireMessage::Lib3hToClient(message));
        Ok(())
    }

    /// Handles the aspects that an agent handed over.
    fn handle_fetch_result(
        &mut self,
        space_address: &SpaceHash,
        agent_id: &AgentId,
        fetch_result: FetchEntryResultData,
    )
        requires
            old(self).wf(),
            fetch_result@.request_id.len() == 0 && fetch_result@.entry.aspect_list.len() > 0
                ==> old(self).state().spaces.contains_key(space_address@),
        ensures
            final(self).wf(),
            final(self).state() == if fetch_result@.request_id.len() == 0 {
                publish_state(old(self).state(), space_address@, fetch_result@.entry)
            } else {
                old(self).state()
            },
            final(self).outbox() == old(self).outbox() + fetched_effects(
                old(self).state(),
                space_address@,
                agent_id@,
                fetch_result@,
            ),
            final(self).idle_part() == old(self).idle_part(),
    {
        if fetch_result.request_id.as_str().is_empty() {
            self.handle_new_entry_data(
                fetch_result.entry,
                space_address.clone(),
                agent_id.clone(),
            );
            return;
        }
        let to_agent_id = fetch_result.request_id;
        let url = match self.lookup_joined(space_address, &to_agent_id) {
            Some(url) => url,
            None => {
                assert(self.outbox() =~= old(self).outbox() + Seq::<EffectView>::empty());
                return;
            },
        };
        let entry = fetch_result.entry;
        let ghost aspects = entry@.aspect_list;
        let ghost to = seq![(to_agent_id@, url@)];
        let ghost effects = |n: int|
            store_effects(to, space_address@, agent_id@, entry@.entry_address, aspects.take(n));
        assert(self.outbox() =~= old(self).outbox() + effects(0));
        for i in 0..entry.aspect_list.len()
            invariant
                self.wf(),
                aspects == entry@.aspect_list,
                to == seq![(to_agent_id@, url@)],
                effects == (|n: int|
                    store_effects(
                        to,
                        space_address@,
                        agent_id@,
                        entry@.entry_address,
                        aspects.take(n),
                    )),
                self.outbox() == old(self).outbox() + effects(i as int),
                self.state() == old(self).state(),
                self.idle_part() == old(self).idle_part(),
        {
            let aspect = &entry.aspect_list[i];
            let store = WireMessage::Lib3hToClient(
                Lib3hToClient::HandleStoreEntryAspect(
                    StoreEntryAspectData {
                        request_id: String::new(),
                        space_address: space_address.clone(),
                        provider_agent_id: agent_id.clone(),
                        entry_address: entry.entry_address.clone(),
                        entry_aspect: aspect.clone(),
                    },
                ),
            );
            self.send(to_agent_id.clone(), url.clone(), &store);
            proof {
                assert(aspects[i as int] == aspect@);
                assert(aspects.take(i + 1).drop_last() =~= aspects.take(i as int));
                let message = store_message(
                    space_address@,
                    agent_id@,
                    entry@.entry_address,
                    aspect@,
                );
                assert(store@ == message);
                assert(broadcast_effects(to, message) =~= seq![
                    sent(to_agent_id@, url@, message),
                ]);
                assert(self.outbox() =~= old(self).outbox() + effects(i + 1));
            }
        }
        assert(aspects.take(aspects.len() as int) =~= aspects);
    }

    /// Serves a message of an agent that is in a space.
    pub fn handle_joined(
        &mut self,
        uri: &Lib3hUri,
        space_address: &SpaceHash,
        agent_id: &AgentId,
        message: WireMessage,
    ) -> (result: Sim2hResult<()>)
        requires
            old(self).wf(),
            joined_ok(old(self).state(), space_address@, agent_id@, message@),
        ensures
            final(self).wf(),
            result_view(result) == joined_result(
                old(self).state(),
                uri@,
                space_address@,
                agent_id@,
                message@,
            ),
            final(self).state() == joined_state(
                old(self).state(),
                uri@,
                space_address@,
                agent_id@,
                message@,
            ),
            final(self).outbox() == old(self).outbox() + final(self).added_since(
                old(self).outbox(),
            ),
            joined_emits(
                old(self).state(),
                uri@,
                space_address@,
                agent_id@,
                message@,
                final(self).added_since(old(self).outbox()),
            ),
            final(self).idle_part() == old(self).idle_part(),
    {
        let ghost s = self.state();
        let ghost m = message@;
        let ghost base = self.outbox();
        let ghost mut pick: int = 0;
        let result = match message {
            WireMessage::ClientToLib3h(ClientToLib3h::JoinSpace(_)) => {
                Err(Sim2hError::JoinNotProxied)
            },
            WireMessage::ClientToLib3h(ClientToLib3h::LeaveSpace(data)) => self.leave(uri, &data),
            WireMessage::ClientToLib3h(ClientToLib3h::SendDirectMessage(dm_data)) => {
                self.forward(space_address, agent_id, dm_data, false)
            },
            WireMessage::Lib3hToClientResponse(
                Lib3hToClientResponse::HandleSendDirectMessageResult(dm_data),
            ) => self.forward(space_address, agent_id, dm_data, true),
            WireMessage::ClientToLib3h(ClientToLib3h::PublishEntry(data)) => {
                if !(data.provider_agent_id == *agent_id) || !(data.space_address
                    == *space_address) {
                    Err(Sim2hError::SpaceMismatch)
                } else {
                    self.handle_new_entry_data(
                        data.entry,
                        space_address.clone(),
                        agent_id.clone(),
                    );
                    Ok(())
                }
            },
            WireMessage::Lib3hToClientResponse(
                Lib3hToClientResponse::HandleGetAuthoringEntryListResult(list_data),
            ) => {
                if !(list_data.provider_agent_id == *agent_id) || !(list_data.space_address
                    == *space_address) {
                    Err(Sim2hError::SpaceMismatch)
                } else {
                    let unseen_aspects = AspectList::from(&list_data.address_map).diff(
                        self.spaces.get(space_address).unwrap().all_aspects(),
                    );
                    self.request_aspects(
                        uri,
                        space_address,
                        agent_id,
                        &String::new(),
                        &unseen_aspects,
                    );
                    Ok(())
                }
            },
            WireMessage::Lib3hToClientResponse(
                Lib3hToClientResponse::HandleGetGossipingEntryListResult(list_data),
            ) => {
                if !(list_data.provider_agent_id == *agent_id) || !(list_data.space_address
                    == *space_address) {
                    Err(Sim2hError::SpaceMismatch)
                } else {
                    let space = self.spaces.get(space_address).unwrap();
                    if space.all_agents().len() != 1 {
                        let others = select_agents(space, Some(agent_id));
                        assert(agent_views(others@).len() == others@.len());
                        let index: usize = random_index(others.len());
                        proof {
                            pick = index as int;
                        }
                        self.fetch_missing(
                            space_address,
                            agent_id,
                            &list_data.address_map,
                            index,
                        );
                    }
                    Ok(())
                }
            },
            WireMessage::Lib3hToClientResponse(
                Lib3hToClientResponse::HandleFetchEntryResult(fetch_result),
            ) => {
                if !(fetch_result.provider_agent_id == *agent_id) || !(fetch_result.space_address
                    == *space_address) {
                    Err(Sim2hError::SpaceMismatch)
                } else {
                    self.handle_fetch_result(space_address, agent_id, fetch_result);
                    Ok(())
                }
            },
            _ => Err(Sim2hError::NotImplemented(message)),
        };
        proof {
            let effects = joined_effects(s, uri@, space_address@, agent_id@, m, pick);
            assert(self.outbox() =~= base + effects);
            assert(self.outbox().skip(base.len() as int) =~= effects);
            assert(self.outbox() =~= base + self.added_since(base));
        }
        result
    }

    /// Has an agent enter a space, and asks it for its lists.
    fn enter(&mut self, uri: &Lib3hUri, data: &SpaceData)
        requires
            old(self).wf(),
        ensures
            final(self).wf(),
            final(self).state() == enter_state(old(self).state(), uri@, data@),
            final(self).outbox() == old(self).outbox() + enter_effects(uri@, data@),
            final(self).idle_part() == old(self).idle_part(),
    {
        let ghost before = self.state();
        let ghost entered = enter_state(before, uri@, data@);
        proof {
            lemma_enter_wf(before, uri@, data@);
            lemma_put(
                self.connection_states@,
                uri@,
                ConnectionView::Joined { space: data@.space_address, agent: data@.agent_id },
            );
        }
        let _ = self.connection_states.insert(
            uri.clone(),
            ConnectionState::Joined(data.space_address.clone(), data.agent_id.clone()),
        );
        if !self.spaces.contains_key(&data.space_address) {
            proof {
                lemma_put(self.spaces@, data@.space_address, SpaceView::empty());
            }
            let _ = self.spaces.insert(data.space_address.clone(), Space::new());
        }
        proof {
            lemma_put(
                self.spaces@,
                data@.space_address,
                before.space(data@.space_address).with_agent(data@.agent_id, uri@),
            );
        }
        self.spaces.get_mut(&data.space_address).join_agent(
            data.agent_id.clone(),
            uri.clone(),
        );
        assert(self.state() =~= entered);
        self.request_authoring_list(
            uri.clone(),
            data.space_address.clone(),
            data.agent_id.clone(),
        );
        self.request_gossiping_list(
            uri.clone(),
            data.space_address.clone(),
            data.agent_id.clone(),
        );
        assert(self.outbox() =~= old(self).outbox() + enter_effects(uri@, data@));
    }

    /// Has the agent of a connection in limbo enter a space, asks it for its lists, and serves
    /// the messages that waited.
    pub fn join(&mut self, uri: &Lib3hUri, data: &SpaceData) -> (result: Sim2hResult<()>)
        requires
            old(self).wf(),
            join_ok(old(self).state(), uri@, data@),
        ensures
            final(self).wf(),
            result_view(result) == join_result(old(self).state(), uri@),
            final(self).state() == join_state(old(self).state(), uri@, data@),
            final(self).outbox() == old(self).outbox() + final(self).added_since(
                old(self).outbox(),
            ),
            join_emits(
                old(self).state(),
                uri@,
                data@,
                final(self).added_since(old(self).outbox()),
            ),
            final(self).idle_part() == old(self).idle_part(),
        decreases 1int,
    {
        let ghost before = self.state();
        let ghost base = self.outbox();
        if let Some(ConnectionState::Limbo(pending_messages)) = self.get_connection(uri) {
            let ghost pending = message_views(pending_messages@);
            let ghost entered = enter_state(before, uri@, data@);
            self.enter(uri, data);
            let ghost asked = self.outbox();
            assert(pending.take(0) =~= Seq::<WireMessageView>::empty());
            for i in 0..pending_messages.len()
                invariant
                    self.wf(),
                    pending == message_views(pending_messages@),
                    entered == enter_state(before, uri@, data@),
                    before.wf(),
                    before.connection(uri@) == Some(ConnectionView::Limbo { pending }),
                    join_ok(before, uri@, data@),
                    self.state() == replay_state(
                        entered,
                        uri@,
                        pending.take(i as int),
                        data@.agent_id,
                    ),
                    self.outbox() == asked + self.added_since(asked),
                    replay_emits(
                        entered,
                        uri@,
                        pending.take(i as int),
                        data@.agent_id,
                        self.added_since(asked),
                    ),
                    self.idle_part() == old(self).idle_part(),
            {
                let ghost served = self.outbox();
                let ghost so_far = pending.take(i as int);
                let ghost here = self.state();
                let message = pending_messages[i].clone();
                proof {
                    assert(pending[i as int] == message@);
                    assert(before.connections[uri@] == (ConnectionView::Limbo { pending }));
                    assert(waits(message@));
                    assert(pending.take(i + 1).drop_last() =~= so_far);
                    assert(pending.take(i + 1).last() == message@);
                    lemma_pending_ok(before, uri@, data@, i as int);
                }
                let _ = self.handle_message(uri, message, &data.agent_id);
                proof {
                    let out = self.outbox().skip(asked.len() as int);
                    let k = served.len() - asked.len();
                    assert(out.take(k) =~= served.skip(asked.len() as int));
                    assert(out.skip(k) =~= self.outbox().skip(served.len() as int));
                    assert(out.skip(k + 1) =~= out.skip(k).skip(1));
                    assert(self.outbox() =~= asked + self.added_since(asked));
                    lemma_replay_step(
                        entered,
                        uri@,
                        so_far,
                        message@,
                        data@.agent_id,
                        out,
                        k,
                    );
                    assert(so_far.push(message@) =~= pending.take(i + 1));
                }
            }
            proof {
                assert(pending.take(pending.len() as int) =~= pending);
                let out = self.outbox().skip(base.len() as int);
                assert(self.outbox() =~= asked + self.added_since(asked));
                assert(out =~= enter_effects(uri@, data@) + out.skip(2));
                assert(out.skip(2) =~= self.outbox().skip(asked.len() as int));
                assert(self.outbox() =~= base + self.added_since(base));
            }
            Ok(())
        } else {
            Err(Sim2hError::NotInLimbo(uri.clone()))
        }
    }

    /// Serves a message that `signer` signed.
    pub fn handle_message(
        &mut self,
        uri: &Lib3hUri,
        message: WireMessage,
        signer: &AgentId,
    ) -> (result: Sim2hResult<()>)
        requires
            old(self).wf(),
            message_ok(old(self).state(), uri@, message@, signer@),
        ensures
            final(self).wf(),
            result_view(result) == message_result(old(self).state(), uri@, message@, signer@),
            final(self).state() == message_state(old(self).state(), uri@, message@, signer@),
            final(self).outbox() == old(self).outbox() + final(self).added_since(
                old(self).outbox(),
            ),
            message_emits(
                old(self).state(),
                uri@,
                message@,
                signer@,
                final(self).added_since(old(self).outbox()),
            ),
            final(self).idle_part() == old(self).idle_part(),
        decreases
                if in_limbo(old(self).state(), uri@) {
                    2int
                } else {
                    0int
                },
    {
        let ghost s = self.state();
        let ghost m = message@;
        let ghost base = self.outbox();
        if let WireMessage::Ping = message {
            self.send(signer.clone(), uri.clone(), &WireMessage::Pong);
            assert(self.outbox().skip(base.len() as int) =~= seq![
                sent(signer@, uri@, WireMessageView::Pong),
            ]);
            assert(self.outbox() =~= base + self.added_since(base));
            return Ok(());
        }
        self.outbox.push(
            Effect::LogIn { agent: signer.clone(), uri: uri.clone(), message: message.clone() },
        );
        let ghost logged = self.outbox();
        let ghost entry = EffectView::LogIn { agent: signer@, uri: uri@, message: m };
        assert(logged =~= base.push(entry));
        let result = match self.get_connection(uri) {
            None => Err(Sim2hError::NoConnection(uri.clone())),
            // In limbo the only message that is served is the one that joins a space.
            Some(ConnectionState::Limbo(mut pending_messages)) => {
                if let WireMessage::ClientToLib3h(ClientToLib3h::JoinSpace(data)) = message {
                    if !(data.agent_id == *signer) {
                        Err(Sim2hError::SignerMismatch)
                    } else {
                        self.join(uri, &data)
                    }
                } else {
                    let ghost pending = message_views(pending_messages@);
                    pending_messages.push(message);
                    proof {
                        assert(message_views(pending_messages@) =~= pending.push(m));
                        lemma_put(
                            self.connection_states@,
                            uri@,
                            ConnectionView::Limbo { pending: pending.push(m) },
                        );
                        lemma_message_wf(s, uri@, m, signer@);
                    }
                    let _ = self.connection_states.insert(
                        uri.clone(),
                        ConnectionState::Limbo(pending_messages),
                    );
                    assert(self.state() =~= message_state(s, uri@, m, signer@));
                    self.send(
                        signer.clone(),
                        uri.clone(),
                        &WireMessage::Error(WireError::MessageWhileInLimbo),
                    );
                    assert(self.outbox().skip(logged.len() as int) =~= seq![
                        sent(
                            signer@,
                            uri@,
                            WireMessageView::Error(WireErrorView::MessageWhileInLimbo),
                        ),
                    ]);
                    Ok(())
                }
            },
            Some(ConnectionState::Joined(space_address, agent_id)) => {
                if !(agent_id == *signer) {
                    Err(Sim2hError::SignerMismatch)
                } else {
                    assert(s.connections[uri@] is Joined);
                    self.handle_joined(uri, &space_address, &agent_id, message)
                }
            },
        };
        proof {
            let out = self.outbox().skip(base.len() as int);
            assert(self.outbox() =~= logged + self.added_since(logged));
            assert(self.outbox()[base.len() as int] == logged[base.len() as int]);
            assert(out =~= seq![entry] + out.skip(1));
            assert(out.skip(1) =~= self.outbox().skip(logged.len() as int));
            assert(self.outbox() =~= base + self.added_since(base));
        }
        result
    }

    /// The server can serve a message of an agent that is in a space.
    fn accepts_joined(
        &self,
        space_address: &SpaceHash,
        agent_id: &AgentId,
        message: &WireMessage,
    ) -> (accepted: bool)
        requires
            self.wf(),
            self.state().spaces.contains_key(space_address@),
        ensures
            accepted == joined_ok(self.state(), space_address@, agent_id@, message@),
    {
        match message {
            WireMessage::Lib3hToClient(_) => false,
            WireMessage::ClientToLib3hResponse(_) => false,
            WireMessage::Lib3hToClientResponse(
                Lib3hToClientResponse::HandleGetGossipingEntryListResult(list_data),
            ) => {
                if list_data.provider_agent_id == *agent_id && list_data.space_address
                    == *space_address {
                    let space = self.spaces.get(space_address).unwrap();
                    let others = select_agents(space, Some(agent_id));
                    assert(agent_views(others@).len() == others@.len());
                    space.all_agents().len() == 1 || others.len() > 0
                } else {
                    true
                }
            },
            _ => true,
        }
    }

    /// The server can serve a message that `signer` signed. What it cannot serve is a message
    /// that only it may send, and a report of what an agent holds from a space in which nobody
    /// is found.
    pub fn accepts_message(
        &self,
        uri: &Lib3hUri,
        message: &WireMessage,
        signer: &AgentId,
    ) -> (accepted: bool)
        requires
            self.wf(),
        ensures
            accepted == message_ok(self.state(), uri@, message@, signer@),
    {
        if let WireMessage::Ping = message {
            return true;
        }
        match self.get_connection(uri) {
            None => true,
            Some(ConnectionState::Limbo(pending)) => {
                if let WireMessage::ClientToLib3h(ClientToLib3h::JoinSpace(data)) = message {
                    if data.agent_id == *signer {
                        accepts_pending(&pending, data)
                    } else {
                        true
                    }
                } else {
                    true
                }
            },
            Some(ConnectionState::Joined(space_address, agent_id)) => {
                assert(self.state().connections[uri@] is Joined);
                !(agent_id == *signer) || self.accepts_joined(&space_address, &agent_id, message)
            },
        }
    }

    /// Counts a poll of the transport. The count starts again at 60000.
    pub fn tick(&mut self)
        requires
            old(self).wf(),
        ensures
            final(self).wf(),
            final(self).ticks() == (old(self).ticks() + 1) % 60000,
            final(self).bound() == old(self).bound(),
            final(self).state() == old(self).state(),
            final(self).outbox() == old(self).outbox(),
    {
        self.num_ticks += 1;
        if self.num_ticks % 60000 == 0 {
            self.num_ticks = 0;
        }
    }
}

/// The server can serve what waits in limbo once the agent has joined.
fn accepts_pending(pending: &Vec<WireMessage>, data: &SpaceData) -> (accepted: bool)
    ensures
        accepted == pending_ok(message_views(pending@), data@),
{
    let ghost views = message_views(pending@);
    for i in 0..pending.len()
        invariant
            views == message_views(pending@),
            forall|j: int|
                0 <= j < i ==> !server_only(#[trigger] views[j]) && !leaves(
                    views[j],
                    data@.space_address,
                    data@.agent_id,
                ),
    {
        assert(views[i as int] == pending@[i as int]@);
        match &pending[i] {
            WireMessage::Lib3hToClient(_) => return false,
            WireMessage::ClientToLib3hResponse(_) => return false,
            WireMessage::ClientToLib3h(ClientToLib3h::LeaveSpace(leaving)) => {
                if leaving.agent_id == data.agent_id && leaving.space_address
                    == data.space_address {
                    assert(leaves(views[i as int], data@.space_address, data@.agent_id));
                    return true;
                }
            },
            _ => {},
        }
    }
    true
}

/// The next of the messages that waited in limbo can be served, when those before it were.
proof fn lemma_pending_ok(s: ServerState, uri: Seq<char>, data: SpaceDataView, i: int)
    requires
        s.wf(),
        in_limbo(s, uri),
        join_ok(s, uri, data),
        0 <= i < s.connections[uri]->pending.len(),
    ensures
        ({
            let pending = s.connections[uri]->pending;
            let here = replay_state(enter_state(s, uri, data), uri, pending.take(i), data.agent_id);
            &&& !in_limbo(here, uri)
            &&& message_ok(here, uri, pending[i], data.agent_id)
        }),
{
    let pending = s.connections[uri]->pending;
    let before = pending.take(i);
    let entered = enter_state(s, uri, data);
    let here = replay_state(entered, uri, before, data.agent_id);
    lemma_enter_wf(s, uri, data);
    lemma_replay_wf(entered, uri, before, data.agent_id);
    lemma_put(s.space(data.space_address).agents, data.agent_id, uri);
    lemma_replay_connection(entered, uri, data.space_address, data.agent_id, before);
    assert forall|j: int| 0 <= j < i implies #[trigger] pending[j] == before[j] by {}
    if server_only(pending[i]) {
        let j = choose|j: int|
            0 <= j < i && leaves(#[trigger] pending[j], data.space_address, data.agent_id);
        assert(leaves(before[j], data.space_address, data.agent_id));
    }
    if here.connection(uri) is Some && here.space(data.space_address).agents.len() > 1 {
        lemma_others_nonempty(here.space(data.space_address), data.agent_id);
    }
}

/// Calls `rand::Rng::gen_range` on `rand::thread_rng()`, with the bounds zero and `n`: some
/// number below `n`, which may differ from call to call. Nothing more is claimed of it.
#[verifier::external_body]
fn random_index(n: usize) -> (index: usize)
    requires
        n > 0,
    ensures
        index < n,
{
    rand::Rng::gen_range(&mut rand::thread_rng(), 0, n)
}

/// Every entry of a list of aspects has aspects in it.
proof fn lemma_entry_has_aspects(aspects: Seq<Aspect>, entry: Seq<char>)
    requires
        entries_of(aspects).contains(entry),
    ensures
        aspects_of(aspects, entry).len() > 0,
    decreases aspects.len(),
{
    if aspects.len() > 0 {
        let entries = entries_of(aspects.drop_last());
        if aspects.last().0 != entry {
            let i = choose|i: int|
                0 <= i < entries_of(aspects).len() && entries_of(aspects)[i] == entry;
            assert(entries[i] == entry);
            lemma_entry_has_aspects(aspects.drop_last(), entry);
        }
    }
}

} // verus!
