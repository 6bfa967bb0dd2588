//! The rules of the server, as functions on what it knows.

use crate::cache::{
    aspects_missing, aspects_of, entries_of, listed_aspects, with_entry_aspects, Aspect, SpaceView,
};
use crate::connection_state::ConnectionView;
use crate::data_types::{
    DirectMessageDataView, EntryAspectDataView, EntryDataView, FetchEntryDataView,
    FetchEntryResultDataView, GetListDataView, SpaceDataView, StoreEntryAspectDataView,
};
use crate::effect::{sent, EffectView};
use crate::error::Sim2hErrorView;
use crate::keyed::lookup;
use crate::wire_message::{
    ClientToLib3hView, Lib3hToClientResponseView, Lib3hToClientView, WireErrorView,
    WireMessageView,
};
use vstd::prelude::*;

verus! {

/// The message has to wait until its sender has joined a space: it is no ping, and does not
/// itself join one.
pub open spec fn waits(message: WireMessageView) -> bool {
    match message {
        WireMessageView::Ping => false,
        WireMessageView::ClientToLib3h(ClientToLib3hView::JoinSpace(_)) => false,
        _ => true,
    }
}

/// Each of the messages has to wait.
pub open spec fn all_wait(messages: Seq<WireMessageView>) -> bool {
    forall|i: int| 0 <= i < messages.len() ==> waits(#[trigger] messages[i])
}

/// What the server knows: the state of each connection, by its uri, and the spaces, by their
/// addresses.
#[verifier::ext_equal]
pub struct ServerState {
    pub connections: Map<Seq<char>, ConnectionView>,
    pub spaces: Map<Seq<char>, SpaceView>,
}

impl ServerState {
    /// Nobody has connected.
    pub open spec fn empty() -> ServerState {
        ServerState { connections: Map::empty(), spaces: Map::empty() }
    }

    /// Whoever has joined a space has joined one that exists, only messages that have to wait
    /// wait in limbo, and each space is well formed.
    pub open spec fn wf(self) -> bool {
        &&& forall|uri: Seq<char>|
            #![trigger self.connections[uri]]
            self.connections.contains_key(uri) ==> match self.connections[uri] {
                ConnectionView::Joined { space, .. } => self.spaces.contains_key(space),
                ConnectionView::Limbo { pending } => all_wait(pending),
            }
        &&& forall|space: Seq<char>| #[trigger]
            self.spaces.contains_key(space) ==> self.spaces[space].wf()
    }

    /// The state of a connection.
    pub open spec fn connection(self, uri: Seq<char>) -> Option<ConnectionView> {
        if self.connections.contains_key(uri) {
            Some(self.connections[uri])
        } else {
            None
        }
    }

    /// A space, which is empty before it exists.
    pub open spec fn space(self, space: Seq<char>) -> SpaceView {
        if self.spaces.contains_key(space) {
            self.spaces[space]
        } else {
            SpaceView::empty()
        }
    }

    /// Where an agent of a space is found.
    pub open spec fn uri_of(self, space: Seq<char>, agent: Seq<char>) -> Option<Seq<char>> {
        lookup(self.space(space).agents, agent)
    }
}

/// A new connection starts in limbo, whatever was there before.
pub open spec fn connect_state(s: ServerState, uri: Seq<char>) -> ServerState {
    ServerState {
        connections: s.connections.insert(uri, ConnectionView::Limbo { pending: Seq::empty() }),
        ..s
    }
}

/// A space once the connection `uri` has ended: the agent that joined it on that connection has
/// left it, and nobody is found there any more.
pub open spec fn abandoned(s: ServerState, uri: Seq<char>, space: Seq<char>) -> SpaceView {
    let here = s.space(space);
    match s.connection(uri) {
        Some(ConnectionView::Joined { space: joined, agent }) => if joined == space {
            here.without_agent(agent).without_uri(uri)
        } else {
            here.without_uri(uri)
        },
        _ => here.without_uri(uri),
    }
}

/// A connection ends: its uri is removed from the connections and from every space, and its
/// agent leaves its space.
pub open spec fn disconnect_state(s: ServerState, uri: Seq<char>) -> ServerState {
    ServerState {
        connections: s.connections.remove(uri),
        spaces: Map::new(
            |space: Seq<char>| s.spaces.contains_key(space),
            |space: Seq<char>| abandoned(s, uri, space),
        ),
    }
}

/// An agent enters a space, which exists from then on.
pub open spec fn enter_state(s: ServerState, uri: Seq<char>, data: SpaceDataView) -> ServerState {
    ServerState {
        connections: s.connections.insert(
            uri,
            ConnectionView::Joined { space: data.space_address, agent: data.agent_id },
        ),
        spaces: s.spaces.insert(
            data.space_address,
            s.space(data.space_address).with_agent(data.agent_id, uri),
        ),
    }
}

/// A request for one of an agent's lists.
pub open spec fn list_request(space: Seq<char>, agent: Seq<char>) -> GetListDataView {
    GetListDataView { space_address: space, provider_agent_id: agent, request_id: Seq::empty() }
}

/// The message that asks an agent for the entries that it authored.
pub open spec fn authoring_request(space: Seq<char>, agent: Seq<char>) -> WireMessageView {
    WireMessageView::Lib3hToClient(
        Lib3hToClientView::HandleGetAuthoringEntryList(list_request(space, agent)),
    )
}

/// The message that asks an agent for the entries that it holds.
pub open spec fn gossiping_request(space: Seq<char>, agent: Seq<char>) -> WireMessageView {
    WireMessageView::Lib3hToClient(
        Lib3hToClientView::HandleGetGossipingEntryList(list_request(space, agent)),
    )
}

/// What an agent is asked for when it has entered a space.
pub open spec fn enter_effects(uri: Seq<char>, data: SpaceDataView) -> Seq<EffectView> {
    seq![
        sent(data.agent_id, uri, authoring_request(data.space_address, data.agent_id)),
        sent(data.agent_id, uri, gossiping_request(data.space_address, data.agent_id)),
    ]
}

/// An agent may leave the space that its connection joined.
pub open spec fn leave_result(s: ServerState, uri: Seq<char>, data: SpaceDataView) -> Result<
    (),
    Sim2hErrorView,
> {
    match s.connection(uri) {
        Some(ConnectionView::Joined { space, agent }) => own_result(
            data.agent_id,
            data.space_address,
            space,
            agent,
        ),
        _ => Err(Sim2hErrorView::NotJoined(uri)),
    }
}

/// Leaving a space ends the connection.
pub open spec fn leave_state(s: ServerState, uri: Seq<char>, data: SpaceDataView) -> ServerState {
    if leave_result(s, uri, data) is Ok {
        disconnect_state(s, uri)
    } else {
        s
    }
}

/// A message must name the agent and the space of its sender.
pub open spec fn own_result(
    named_agent: Seq<char>,
    named_space: Seq<char>,
    space: Seq<char>,
    agent: Seq<char>,
) -> Result<(), Sim2hErrorView> {
    if named_agent == agent && named_space == space {
        Ok(())
    } else {
        Err(Sim2hErrorView::SpaceMismatch)
    }
}

/// A direct message must also be addressed to an agent of the space.
pub open spec fn direct_result(
    s: ServerState,
    space: Seq<char>,
    agent: Seq<char>,
    data: DirectMessageDataView,
) -> Result<(), Sim2hErrorView> {
    if own_result(data.from_agent_id, data.space_address, space, agent) is Err {
        Err(Sim2hErrorView::SpaceMismatch)
    } else if s.uri_of(space, data.to_agent_id) is None {
        Err(Sim2hErrorView::UnvalidatedProxyAgent(data.to_agent_id))
    } else {
        Ok(())
    }
}

/// Messages that only the server sends.
pub open spec fn server_only(message: WireMessageView) -> bool {
    message is Lib3hToClient || message is ClientToLib3hResponse
}

/// How the server answers for a message of an agent that is in a space.
pub open spec fn joined_result(
    s: ServerState,
    uri: Seq<char>,
    space: Seq<char>,
    agent: Seq<char>,
    message: WireMessageView,
) -> Result<(), Sim2hErrorView> {
    match message {
        WireMessageView::ClientToLib3h(ClientToLib3hView::JoinSpace(_)) => Err(
            Sim2hErrorView::JoinNotProxied,
        ),
        WireMessageView::ClientToLib3h(ClientToLib3hView::LeaveSpace(data)) => leave_result(
            s,
            uri,
            data,
        ),
        WireMessageView::ClientToLib3h(ClientToLib3hView::SendDirectMessage(data)) => direct_result(
            s,
            space,
            agent,
            data,
        ),
        WireMessageView::Lib3hToClientResponse(
            Lib3hToClientResponseView::HandleSendDirectMessageResult(data),
        ) => direct_result(s, space, agent, data),
        WireMessageView::ClientToLib3h(ClientToLib3hView::PublishEntry(data)) => own_result(
            data.provider_agent_id,
            data.space_address,
            space,
            agent,
        ),
        WireMessageView::Lib3hToClientResponse(
            Lib3hToClientResponseView::HandleGetAuthoringEntryListResult(data),
        ) => own_result(data.provider_agent_id, data.space_address, space, agent),
        WireMessageView::Lib3hToClientResponse(
            Lib3hToClientResponseView::HandleGetGossipingEntryListResult(data),
        ) => own_result(data.provider_agent_id, data.space_address, space, agent),
        WireMessageView::Lib3hToClientResponse(
            Lib3hToClientResponseView::HandleFetchEntryResult(data),
        ) => own_result(data.provider_agent_id, data.space_address, space, agent),
        _ => Err(Sim2hErrorView::NotImplemented(message)),
    }
}

/// The addresses of the aspects of an entry.
pub open spec fn aspect_addresses(aspects: Seq<EntryAspectDataView>) -> Seq<Seq<char>> {
    aspects.map_values(|a: EntryAspectDataView| a.aspect_address)
}

/// A space that exists knows the aspects of an entry.
pub open spec fn publish_state(
    s: ServerState,
    space: Seq<char>,
    entry: EntryDataView,
) -> ServerState {
    if s.spaces.contains_key(space) {
        let known = s.spaces[space];
        let aspects = with_entry_aspects(
            known.aspects,
            entry.entry_address,
            aspect_addresses(entry.aspect_list),
        );
        ServerState { spaces: s.spaces.insert(space, SpaceView { aspects, ..known }), ..s }
    } else {
        s
    }
}

/// What the server knows after a message of an agent that is in a space.
pub open spec fn joined_state(
    s: ServerState,
    uri: Seq<char>,
    space: Seq<char>,
    agent: Seq<char>,
    message: WireMessageView,
) -> ServerState {
    if joined_result(s, uri, space, agent, message) is Err {
        s
    } else {
        match message {
            WireMessageView::ClientToLib3h(ClientToLib3hView::LeaveSpace(data)) => leave_state(
                s,
                uri,
                data,
            ),
            WireMessageView::ClientToLib3h(ClientToLib3hView::PublishEntry(data)) => publish_state(
                s,
                space,
                data.entry,
            ),
            WireMessageView::Lib3hToClientResponse(
                Lib3hToClientResponseView::HandleFetchEntryResult(data),
            ) => if data.request_id.len() == 0 {
                publish_state(s, space, data.entry)
            } else {
                s
            },
            _ => s,
        }
    }
}

/// The message that has an agent store an aspect.
pub open spec fn store_message(
    space: Seq<char>,
    provider: Seq<char>,
    entry_address: Seq<char>,
    aspect: EntryAspectDataView,
) -> WireMessageView {
    WireMessageView::Lib3hToClient(
        Lib3hToClientView::HandleStoreEntryAspect(
            StoreEntryAspectDataView {
                request_id: Seq::empty(),
                space_address: space,
                provider_agent_id: provider,
                entry_address,
                entry_aspect: aspect,
            },
        ),
    )
}

/// The message goes to each of the agents.
pub open spec fn broadcast_effects(
    agents: Seq<(Seq<char>, Seq<char>)>,
    message: WireMessageView,
) -> Seq<EffectView> {
    agents.map_values(|a: (Seq<char>, Seq<char>)| sent(a.0, a.1, message))
}

/// Each aspect in turn goes to each of the agents.
pub open spec fn store_effects(
    agents: Seq<(Seq<char>, Seq<char>)>,
    space: Seq<char>,
    provider: Seq<char>,
    entry_address: Seq<char>,
    aspects: Seq<EntryAspectDataView>,
) -> Seq<EffectView>
    decreases aspects.len(),
{
    if aspects.len() == 0 {
        Seq::empty()
    } else {
        store_effects(agents, space, provider, entry_address, aspects.drop_last())
            + broadcast_effects(
            agents,
            store_message(space, provider, entry_address, aspects.last()),
        )
    }
}

/// The message that has an agent hand over the aspects of an entry.
pub open spec fn fetch_message(
    space: Seq<char>,
    provider: Seq<char>,
    request_id: Seq<char>,
    entry_address: Seq<char>,
    aspects: Seq<Seq<char>>,
) -> WireMessageView {
    WireMessageView::Lib3hToClient(
        Lib3hToClientView::HandleFetchEntry(
            FetchEntryDataView {
                space_address: space,
                entry_address,
                request_id,
                provider_agent_id: provider,
                aspect_address_list: Some(aspects),
            },
        ),
    )
}

/// An agent is asked for the aspects `wanted`, entry by entry.
pub open spec fn fetch_effects(
    uri: Seq<char>,
    space: Seq<char>,
    provider: Seq<char>,
    request_id: Seq<char>,
    wanted: Seq<Aspect>,
) -> Seq<EffectView> {
    entries_of(wanted).map_values(
        |entry: Seq<char>|
            sent(
                provider,
                uri,
                fetch_message(space, provider, request_id, entry, aspects_of(wanted, entry)),
            ),
    )
}

/// What is done with the aspects that an agent handed over. Without a request id they are new
/// to the space and go to every other agent; else the request id is the agent that lacked them.
pub open spec fn fetched_effects(
    s: ServerState,
    space: Seq<char>,
    agent: Seq<char>,
    data: FetchEntryResultDataView,
) -> Seq<EffectView> {
    if data.request_id.len() == 0 {
        store_effects(
            s.space(space).others(agent),
            space,
            agent,
            data.entry.entry_address,
            data.entry.aspect_list,
        )
    } else {
        match s.uri_of(space, data.request_id) {
            Some(uri) => store_effects(
                seq![(data.request_id, uri)],
                space,
                agent,
                data.entry.entry_address,
                data.entry.aspect_list,
            ),
            None => Seq::empty(),
        }
    }
}

/// The number of agents among which the server chooses to serve the message: the others of the
/// space when its sender reports what it holds and is not alone, else there is no choice.
pub open spec fn choices(
    s: ServerState,
    space: Seq<char>,
    agent: Seq<char>,
    message: WireMessageView,
) -> nat {
    match message {
        WireMessageView::Lib3hToClientResponse(
            Lib3hToClientResponseView::HandleGetGossipingEntryListResult(data),
        ) => if own_result(data.provider_agent_id, data.space_address, space, agent) is Ok
            && s.space(space).agents.len() != 1 {
            s.space(space).others(agent).len()
        } else {
            1
        },
        _ => 1,
    }
}

/// What a message of an agent that is in a space brings about, where `pick` says which of the
/// other agents was chosen.
pub open spec fn joined_effects(
    s: ServerState,
    uri: Seq<char>,
    space: Seq<char>,
    agent: Seq<char>,
    message: WireMessageView,
    pick: int,
) -> Seq<EffectView> {
    if joined_result(s, uri, space, agent, message) is Err {
        Seq::empty()
    } else {
        match message {
            WireMessageView::ClientToLib3h(ClientToLib3hView::SendDirectMessage(data)) => seq![
                sent(
                    data.to_agent_id,
                    s.uri_of(space, data.to_agent_id)->0,
                    WireMessageView::Lib3hToClient(
                        Lib3hToClientView::HandleSendDirectMessage(data),
                    ),
                ),
            ],
            WireMessageView::Lib3hToClientResponse(
                Lib3hToClientResponseView::HandleSendDirectMessageResult(data),
            ) => seq![
                sent(
                    data.to_agent_id,
                    s.uri_of(space, data.to_agent_id)->0,
                    WireMessageView::Lib3hToClient(
                        Lib3hToClientView::SendDirectMessageResult(data),
                    ),
                ),
            ],
            WireMessageView::ClientToLib3h(ClientToLib3hView::PublishEntry(data)) => store_effects(
                s.space(space).others(agent),
                space,
                agent,
                data.entry.entry_address,
                data.entry.aspect_list,
            ),
            WireMessageView::Lib3hToClientResponse(
                Lib3hToClientResponseView::HandleGetAuthoringEntryListResult(data),
            ) => fetch_effects(
                uri,
                space,
                agent,
                Seq::empty(),
                aspects_missing(listed_aspects(data.address_map), s.space(space).aspects),
            ),
            WireMessageView::Lib3hToClientResponse(
                Lib3hToClientResponseView::HandleGetGossipingEntryListResult(data),
            ) => if s.space(space).agents.len() == 1 {
                Seq::empty()
            } else {
                let chosen = s.space(space).others(agent)[pick];
                fetch_effects(
                    chosen.1,
                    space,
                    chosen.0,
                    agent,
                    aspects_missing(s.space(space).aspects, listed_aspects(data.address_map)),
                )
            },
            WireMessageView::Lib3hToClientResponse(
                Lib3hToClientResponseView::HandleFetchEntryResult(data),
            ) => fetched_effects(s, space, agent, data),
            _ => Seq::empty(),
        }
    }
}

/// The effects `out` are what the message brings about under some choice.
pub open spec fn joined_emits(
    s: ServerState,
    uri: Seq<char>,
    space: Seq<char>,
    agent: Seq<char>,
    message: WireMessageView,
    out: Seq<EffectView>,
) -> bool {
    exists|pick: int|
        0 <= pick < choices(s, space, agent, message) && out == #[trigger] joined_effects(
            s,
            uri,
            space,
            agent,
            message,
            pick,
        )
}

/// The message can be served only in a space that exists.
pub open spec fn needs_space(
    space: Seq<char>,
    agent: Seq<char>,
    message: WireMessageView,
) -> bool {
    match message {
        WireMessageView::ClientToLib3h(ClientToLib3hView::PublishEntry(data)) => own_result(
            data.provider_agent_id,
            data.space_address,
            space,
            agent,
        ) is Ok && data.entry.aspect_list.len() > 0,
        WireMessageView::Lib3hToClientResponse(
            Lib3hToClientResponseView::HandleGetAuthoringEntryListResult(data),
        ) => own_result(data.provider_agent_id, data.space_address, space, agent) is Ok,
        WireMessageView::Lib3hToClientResponse(
            Lib3hToClientResponseView::HandleGetGossipingEntryListResult(data),
        ) => own_result(data.provider_agent_id, data.space_address, space, agent) is Ok,
        WireMessageView::Lib3hToClientResponse(
            Lib3hToClientResponseView::HandleFetchEntryResult(data),
        ) => own_result(data.provider_agent_id, data.space_address, space, agent) is Ok
            && data.request_id.len() == 0 && data.entry.aspect_list.len() > 0,
        _ => false,
    }
}

/// The server can serve the message of an agent that is in a space: clients do not send what
/// only the server sends, the space exists, and a space from which an agent reports what it
/// holds has agents.
pub open spec fn joined_ok(
    s: ServerState,
    space: Seq<char>,
    agent: Seq<char>,
    message: WireMessageView,
) -> bool {
    &&& !server_only(message)
    &&& needs_space(space, agent, message) ==> s.spaces.contains_key(space)
    &&& choices(s, space, agent, message) > 0
}

/// The connection is in limbo.
pub open spec fn in_limbo(s: ServerState, uri: Seq<char>) -> bool {
    s.connection(uri) matches Some(ConnectionView::Limbo { .. })
}

/// How the server answers for a message, other than a ping, on a connection that is not in
/// limbo.
pub open spec fn settled_result(
    s: ServerState,
    uri: Seq<char>,
    message: WireMessageView,
    signer: Seq<char>,
) -> Result<(), Sim2hErrorView> {
    match s.connection(uri) {
        Some(ConnectionView::Joined { space, agent }) => if agent != signer {
            Err(Sim2hErrorView::SignerMismatch)
        } else {
            joined_result(s, uri, space, agent, message)
        },
        _ => Err(Sim2hErrorView::NoConnection(uri)),
    }
}

/// What the server knows after a message, other than a ping, on a connection that is not in
/// limbo.
pub open spec fn settled_state(
    s: ServerState,
    uri: Seq<char>,
    message: WireMessageView,
    signer: Seq<char>,
) -> ServerState {
    match s.connection(uri) {
        Some(ConnectionView::Joined { space, agent }) => if agent != signer {
            s
        } else {
            joined_state(s, uri, space, agent, message)
        },
        _ => s,
    }
}

/// What follows the log entry of a message, other than a ping, on a connection that is not in
/// limbo.
pub open spec fn settled_emits(
    s: ServerState,
    uri: Seq<char>,
    message: WireMessageView,
    signer: Seq<char>,
    out: Seq<EffectView>,
) -> bool {
    match s.connection(uri) {
        Some(ConnectionView::Joined { space, agent }) => if agent != signer {
            out.len() == 0
        } else {
            joined_emits(s, uri, space, agent, message, out)
        },
        _ => out.len() == 0,
    }
}

/// What the server knows after the messages that waited in limbo were served in turn.
pub open spec fn replay_state(
    s: ServerState,
    uri: Seq<char>,
    messages: Seq<WireMessageView>,
    signer: Seq<char>,
) -> ServerState
    decreases messages.len(),
{
    if messages.len() == 0 {
        s
    } else {
        settled_state(
            replay_state(s, uri, messages.drop_last(), signer),
            uri,
            messages.last(),
            signer,
        )
    }
}

/// The effects `out` start with the log entry of a message that came in.
pub open spec fn logged_first(
    agent: Seq<char>,
    uri: Seq<char>,
    message: WireMessageView,
    out: Seq<EffectView>,
) -> bool {
    out.len() > 0 && out == seq![EffectView::LogIn { agent, uri, message }] + out.skip(1)
}

/// The effects `out` are what serving the messages that waited in limbo can bring about, message
/// by message.
pub open spec fn replay_emits(
    s: ServerState,
    uri: Seq<char>,
    messages: Seq<WireMessageView>,
    signer: Seq<char>,
    out: Seq<EffectView>,
) -> bool
    decreases messages.len(),
{
    if messages.len() == 0 {
        out.len() == 0
    } else {
        exists|k: int|
            0 <= k <= out.len() && replay_emits(
                s,
                uri,
                messages.drop_last(),
                signer,
                #[trigger] out.take(k),
            ) && logged_first(signer, uri, messages.last(), out.skip(k)) && settled_emits(
                replay_state(s, uri, messages.drop_last(), signer),
                uri,
                messages.last(),
                signer,
                out.skip(k + 1),
            )
    }
}

/// What the server knows after an agent whose connection is in limbo joined.
pub open spec fn join_state(s: ServerState, uri: Seq<char>, data: SpaceDataView) -> ServerState {
    match s.connection(uri) {
        Some(ConnectionView::Limbo { pending }) => replay_state(
            enter_state(s, uri, data),
            uri,
            pending,
            data.agent_id,
        ),
        _ => s,
    }
}

/// Only a connection in limbo can join.
pub open spec fn join_result(s: ServerState, uri: Seq<char>) -> Result<(), Sim2hErrorView> {
    if in_limbo(s, uri) {
        Ok(())
    } else {
        Err(Sim2hErrorView::NotInLimbo(uri))
    }
}

/// The agent is asked for its lists, and then what waited in limbo is served.
pub open spec fn join_emits(
    s: ServerState,
    uri: Seq<char>,
    data: SpaceDataView,
    out: Seq<EffectView>,
) -> bool {
    match s.connection(uri) {
        Some(ConnectionView::Limbo { pending }) => {
            &&& out.len() >= 2
            &&& out == enter_effects(uri, data) + out.skip(2)
            &&& replay_emits(
                enter_state(s, uri, data),
                uri,
                pending,
                data.agent_id,
                out.skip(2),
            )
        },
        _ => out.len() == 0,
    }
}

/// The message has the agent leave the space.
pub open spec fn leaves(
    message: WireMessageView,
    space: Seq<char>,
    agent: Seq<char>,
) -> bool {
    message matches WireMessageView::ClientToLib3h(ClientToLib3hView::LeaveSpace(data))
        && own_result(data.agent_id, data.space_address, space, agent) is Ok
}

/// The server can serve what waits in limbo once the agent has joined: what only the server
/// sends comes, if at all, after the agent has left again.
pub open spec fn pending_ok(pending: Seq<WireMessageView>, data: SpaceDataView) -> bool {
    forall|i: int|
        #![trigger pending[i]]
        0 <= i < pending.len() && server_only(pending[i]) ==> exists|j: int|
            0 <= j < i && leaves(#[trigger] pending[j], data.space_address, data.agent_id)
}

/// The server can have the agent join and serve what waits.
pub open spec fn join_ok(s: ServerState, uri: Seq<char>, data: SpaceDataView) -> bool {
    s.connection(uri) matches Some(ConnectionView::Limbo { pending }) ==> pending_ok(pending, data)
}

/// How the server answers for a message that `signer` signed.
pub open spec fn message_result(
    s: ServerState,
    uri: Seq<char>,
    message: WireMessageView,
    signer: Seq<char>,
) -> Result<(), Sim2hErrorView> {
    if message is Ping {
        Ok(())
    } else if in_limbo(s, uri) {
        match message {
            WireMessageView::ClientToLib3h(ClientToLib3hView::JoinSpace(data)) => {
                if data.agent_id != signer {
                    Err(Sim2hErrorView::SignerMismatch)
                } else {
                    Ok(())
                }
            },
            _ => Ok(()),
        }
    } else {
        settled_result(s, uri, message, signer)
    }
}

/// What the server knows after a message that `signer` signed.
pub open spec fn message_state(
    s: ServerState,
    uri: Seq<char>,
    message: WireMessageView,
    signer: Seq<char>,
) -> ServerState {
    if message is Ping {
        s
    } else {
        match s.connection(uri) {
            Some(ConnectionView::Limbo { pending }) => match message {
                WireMessageView::ClientToLib3h(ClientToLib3hView::JoinSpace(data)) => {
                    if data.agent_id != signer {
                        s
                    } else {
                        join_state(s, uri, data)
                    }
                },
                _ => ServerState {
                    connections: s.connections.insert(
                        uri,
                        ConnectionView::Limbo { pending: pending.push(message) },
                    ),
                    ..s
                },
            },
            _ => settled_state(s, uri, message, signer),
        }
    }
}

/// The effects `out` are what a message that `signer` signed can bring about. A ping is
/// answered by a pong. Any other message is logged; in limbo it is then answered by an error,
/// unless it is an attempt to join.
pub open spec fn message_emits(
    s: ServerState,
    uri: Seq<char>,
    message: WireMessageView,
    signer: Seq<char>,
    out: Seq<EffectView>,
) -> bool {
    if message is Ping {
        out == seq![sent(signer, uri, WireMessageView::Pong)]
    } else {
        let rest = out.skip(1);
        &&& logged_first(signer, uri, message, out)
        &&& if in_limbo(s, uri) {
            match message {
                WireMessageView::ClientToLib3h(ClientToLib3hView::JoinSpace(data)) => {
                    if data.agent_id != signer {
                        rest.len() == 0
                    } else {
                        join_emits(s, uri, data, rest)
                    }
                },
                _ => rest == seq![
                    sent(
                        signer,
                        uri,
                        WireMessageView::Error(WireErrorView::MessageWhileInLimbo),
                    ),
                ],
            }
        } else {
            settled_emits(s, uri, message, signer, rest)
        }
    }
}

/// The server can serve a message that `signer` signed.
pub open spec fn message_ok(
    s: ServerState,
    uri: Seq<char>,
    message: WireMessageView,
    signer: Seq<char>,
) -> bool {
    message is Ping || match s.connection(uri) {
        Some(ConnectionView::Limbo { pending }) => {
            message matches WireMessageView::ClientToLib3h(ClientToLib3hView::JoinSpace(data)) ==> (
            data.agent_id == signer ==> join_ok(s, uri, data))
        },
        Some(ConnectionView::Joined { space, agent }) => {
            agent == signer ==> joined_ok(s, space, agent, message)
        },
        None => true,
    }
}

} // verus!
