//! What the views keep of the values that they are taken of: everything.

use crate::connection_state::{message_views, ConnectionState, ConnectionView};
use crate::data_types::{
    address_map_view, texts, AddressMapItem, DirectMessageData, EntryAspectData, EntryData,
    EntryListData, FetchEntryData, FetchEntryResultData, GetListData, ProvidedEntryData, SpaceData,
    StoreEntryAspectData,
};
use crate::effect::{effect_views, sent, Effect, EffectView};
use crate::error::{result_view, Sim2hError, Sim2hErrorView, Sim2hResult};
use crate::events::{
    event_views, received_view, SignedWireMessage, SignedWireMessageView, StreamEvent,
    StreamEventView,
};
use crate::wire_message::{
    ClientToLib3h, ClientToLib3hView, Lib3hToClient, Lib3hToClientResponse,
    Lib3hToClientResponseView, Lib3hToClientView, WireError, WireErrorView, WireMessage,
    WireMessageView,
};
use vstd::prelude::*;

verus! {

/// The views of a sequence are those of its items, one for one.
pub proof fn law_sequence_views(
    t: Seq<String>,
    map: Seq<AddressMapItem>,
    messages: Seq<WireMessage>,
    effects: Seq<Effect>,
    events: Seq<StreamEvent>,
    i: int,
)
    ensures
        texts(t).len() == t.len(),
        0 <= i < t.len() ==> texts(t)[i] == t[i]@,
        address_map_view(map).len() == map.len(),
        0 <= i < map.len() ==> address_map_view(map)[i] == map[i]@,
        message_views(messages).len() == messages.len(),
        0 <= i < messages.len() ==> message_views(messages)[i] == messages[i]@,
        effect_views(effects).len() == effects.len(),
        0 <= i < effects.len() ==> effect_views(effects)[i] == effects[i]@,
        event_views(events).len() == events.len(),
        0 <= i < events.len() ==> event_views(events)[i] == events[i]@,
{
}

/// The view of what enters or leaves a space holds every field.
pub proof fn law_space_data_view(data: SpaceData)
    ensures
        data@.request_id == data.request_id@,
        data@.space_address == data.space_address@,
        data@.agent_id == data.agent_id@,
{
}

/// The view of a direct message holds every field, and all of the content.
pub proof fn law_direct_message_view(data: DirectMessageData)
    ensures
        data@.space_address == data.space_address@,
        data@.request_id == data.request_id@,
        data@.to_agent_id == data.to_agent_id@,
        data@.from_agent_id == data.from_agent_id@,
        data@.content == data.content@,
{
}

/// The view of an aspect holds every field, and all of the content.
pub proof fn law_aspect_view(data: EntryAspectData)
    ensures
        data@.aspect_address == data.aspect_address@,
        data@.type_hint == data.type_hint@,
        data@.aspect == data.aspect@,
        data@.publish_ts == data.publish_ts,
{
}

/// The view of an entry holds its address and each of its aspects.
pub proof fn law_entry_view(data: EntryData, i: int)
    ensures
        data@.entry_address == data.entry_address@,
        data@.aspect_list.len() == data.aspect_list@.len(),
        0 <= i < data.aspect_list@.len() ==> data@.aspect_list[i] == data.aspect_list@[i]@,
{
}

/// The view of an entry that is published holds every field.
pub proof fn law_provided_entry_view(data: ProvidedEntryData)
    ensures
        data@.space_address == data.space_address@,
        data@.provider_agent_id == data.provider_agent_id@,
        data@.entry == data.entry@,
{
}

/// The view of a request for a list holds every field.
pub proof fn law_get_list_view(data: GetListData)
    ensures
        data@.space_address == data.space_address@,
        data@.provider_agent_id == data.provider_agent_id@,
        data@.request_id == data.request_id@,
{
}

/// The view of an item of an address map holds its entry and each of the aspects.
pub proof fn law_address_map_item_view(item: AddressMapItem)
    ensures
        item@.entry_address == item.entry_address@,
        item@.aspect_addresses == texts(item.aspect_addresses@),
{
}

/// The view of an answer with a list holds every field.
pub proof fn law_entry_list_view(data: EntryListData)
    ensures
        data@.space_address == data.space_address@,
        data@.provider_agent_id == data.provider_agent_id@,
        data@.request_id == data.request_id@,
        data@.address_map == address_map_view(data.address_map@),
{
}

/// The view of a request for aspects holds every field.
pub proof fn law_fetch_entry_view(data: FetchEntryData)
    ensures
        data@.space_address == data.space_address@,
        data@.entry_address == data.entry_address@,
        data@.request_id == data.request_id@,
        data@.provider_agent_id == data.provider_agent_id@,
        data@.aspect_address_list is Some <==> data.aspect_address_list is Some,
        data.aspect_address_list matches Some(list) ==> data@.aspect_address_list == Some(
            texts(list@),
        ),
{
}

/// The view of an answer with aspects holds every field.
pub proof fn law_fetch_result_view(data: FetchEntryResultData)
    ensures
        data@.space_address == data.space_address@,
        data@.provider_agent_id == data.provider_agent_id@,
        data@.request_id == data.request_id@,
        data@.entry == data.entry@,
{
}

/// The view of what is to be stored holds every field.
pub proof fn law_store_view(data: StoreEntryAspectData)
    ensures
        data@.request_id == data.request_id@,
        data@.space_address == data.space_address@,
        data@.provider_agent_id == data.provider_agent_id@,
        data@.entry_address == data.entry_address@,
        data@.entry_aspect == data.entry_aspect@,
{
}

/// The view of a message has its kind, and the view of what it carries.
pub proof fn law_message_view(message: WireMessage)
    ensures
        match message {
            WireMessage::Ping => message@ == WireMessageView::Ping,
            WireMessage::Pong => message@ == WireMessageView::Pong,
            WireMessage::ClientToLib3h(data) => message@ == WireMessageView::ClientToLib3h(data@),
            WireMessage::ClientToLib3hResponse(data) => message@
                == WireMessageView::ClientToLib3hResponse(data@),
            WireMessage::Lib3hToClient(data) => message@ == WireMessageView::Lib3hToClient(data@),
            WireMessage::Lib3hToClientResponse(data) => message@
                == WireMessageView::Lib3hToClientResponse(data@),
            WireMessage::Error(WireError::MessageWhileInLimbo) => message@
                == WireMessageView::Error(WireErrorView::MessageWhileInLimbo),
            WireMessage::Error(WireError::Other(data)) => message@ == WireMessageView::Error(
                WireErrorView::Other(data@),
            ),
        },
{
}

/// The view of a client's request has its kind, and the view of what it carries.
pub proof fn law_request_view(request: ClientToLib3h)
    ensures
        match request {
            ClientToLib3h::JoinSpace(data) => request@ == ClientToLib3hView::JoinSpace(data@),
            ClientToLib3h::LeaveSpace(data) => request@ == ClientToLib3hView::LeaveSpace(data@),
            ClientToLib3h::SendDirectMessage(data) => request@
                == ClientToLib3hView::SendDirectMessage(data@),
            ClientToLib3h::PublishEntry(data) => request@ == ClientToLib3hView::PublishEntry(data@),
            ClientToLib3h::Other(data) => request@ == ClientToLib3hView::Other(data@),
        },
{
}

/// The view of what the server tells a client has its kind, and the view of what it carries.
pub proof fn law_order_view(order: Lib3hToClient)
    ensures
        match order {
            Lib3hToClient::HandleSendDirectMessage(data) => order@
                == Lib3hToClientView::HandleSendDirectMessage(data@),
            Lib3hToClient::SendDirectMessageResult(data) => order@
                == Lib3hToClientView::SendDirectMessageResult(data@),
            Lib3hToClient::HandleFetchEntry(data) => order@ == Lib3hToClientView::HandleFetchEntry(
                data@,
            ),
            Lib3hToClient::HandleStoreEntryAspect(data) => order@
                == Lib3hToClientView::HandleStoreEntryAspect(data@),
            Lib3hToClient::HandleGetAuthoringEntryList(data) => order@
                == Lib3hToClientView::HandleGetAuthoringEntryList(data@),
            Lib3hToClient::HandleGetGossipingEntryList(data) => order@
                == Lib3hToClientView::HandleGetGossipingEntryList(data@),
            Lib3hToClient::Other(data) => order@ == Lib3hToClientView::Other(data@),
        },
{
}

/// The view of a client's answer has its kind, and the view of what it carries.
pub proof fn law_answer_view(answer: Lib3hToClientResponse)
    ensures
        match answer {
            Lib3hToClientResponse::HandleSendDirectMessageResult(data) => answer@
                == Lib3hToClientResponseView::HandleSendDirectMessageResult(data@),
            Lib3hToClientResponse::HandleGetAuthoringEntryListResult(data) => answer@
                == Lib3hToClientResponseView::HandleGetAuthoringEntryListResult(data@),
            Lib3hToClientResponse::HandleGetGossipingEntryListResult(data) => answer@
                == Lib3hToClientResponseView::HandleGetGossipingEntryListResult(data@),
            Lib3hToClientResponse::HandleFetchEntryResult(data) => answer@
                == Lib3hToClientResponseView::HandleFetchEntryResult(data@),
            Lib3hToClientResponse::Other(data) => answer@ == Lib3hToClientResponseView::Other(
                data@,
            ),
        },
{
}

/// The view of a connection says whether it is in limbo, with all that waits there in its
/// order, or which agent joined which space on it.
pub proof fn law_connection_view(state: ConnectionState)
    ensures
        match state {
            ConnectionState::Limbo(messages) => state@ == (ConnectionView::Limbo {
                pending: message_views(messages@),
            }),
            ConnectionState::Joined(space, agent) => state@ == (ConnectionView::Joined {
                space: space@,
                agent: agent@,
            }),
        },
{
}

/// The view of an effect holds every field.
pub proof fn law_effect_view(effect: Effect)
    ensures
        match effect {
            Effect::LogIn { agent, uri, message } => effect@ == (EffectView::LogIn {
                agent: agent@,
                uri: uri@,
                message: message@,
            }),
            Effect::Send { agent, uri, message, logged } => effect@ == (EffectView::Send {
                agent: agent@,
                uri: uri@,
                message: message@,
                logged,
            }),
        },
{
}

/// What is sent is logged, unless it is a ping or a pong.
pub proof fn law_sent(agent: Seq<char>, uri: Seq<char>, message: WireMessageView)
    ensures
        message == WireMessageView::Ping || message == WireMessageView::Pong ==> sent(
            agent,
            uri,
            message,
        ) == (EffectView::Send { agent, uri, message, logged: false }),
        message != WireMessageView::Ping && message != WireMessageView::Pong ==> sent(
            agent,
            uri,
            message,
        ) == (EffectView::Send { agent, uri, message, logged: true }),
{
}

/// The view of an event has its kind and its connection, and what else came with it.
pub proof fn law_event_view(event: StreamEvent)
    ensures
        match event {
            StreamEvent::ReceivedData(uri, received) => event@ == StreamEventView::ReceivedData(
                uri@,
                received_view(received),
            ),
            StreamEvent::IncomingConnectionEstablished(uri) => event@
                == StreamEventView::IncomingConnectionEstablished(uri@),
            StreamEvent::ConnectionClosed(uri) => event@ == StreamEventView::ConnectionClosed(uri@),
            StreamEvent::ConnectResult(uri, id) => event@ == StreamEventView::ConnectResult(
                uri@,
                id@,
            ),
            StreamEvent::ErrorOccured(uri, error) => event@ == StreamEventView::ErrorOccured(
                uri@,
                error@,
            ),
        },
{
}

/// The view of a payload holds the signer, the verdict on the signature, and the message or why
/// there is none; that of a payload that was not taken apart holds why.
pub proof fn law_received_view(received: Result<SignedWireMessage, String>)
    ensures
        match received {
            Err(text) => received_view(received) == Err::<SignedWireMessageView, Seq<char>>(text@),
            Ok(signed) => {
                &&& received_view(received) matches Ok(view)
                &&& view.source == signed.source@
                &&& view.verified == signed.verified
                &&& match signed.payload {
                    Ok(message) => view.payload == Ok::<WireMessageView, Seq<char>>(message@),
                    Err(text) => view.payload == Err::<WireMessageView, Seq<char>>(text@),
                }
            },
        },
{
}

/// The view of an error has its kind, and what it speaks of.
pub proof fn law_error_view(error: Sim2hError)
    ensures
        match error {
            Sim2hError::VerifyFailed => error@ == Sim2hErrorView::VerifyFailed,
            Sim2hError::SignerMismatch => error@ == Sim2hErrorView::SignerMismatch,
            Sim2hError::SpaceMismatch => error@ == Sim2hErrorView::SpaceMismatch,
            Sim2hError::NoConnection(uri) => error@ == Sim2hErrorView::NoConnection(uri@),
            Sim2hError::NotInLimbo(uri) => error@ == Sim2hErrorView::NotInLimbo(uri@),
            Sim2hError::NotJoined(uri) => error@ == Sim2hErrorView::NotJoined(uri@),
            Sim2hError::UnvalidatedProxyAgent(agent) => error@
                == Sim2hErrorView::UnvalidatedProxyAgent(agent@),
            Sim2hError::JoinNotProxied => error@ == Sim2hErrorView::JoinNotProxied,
            Sim2hError::NotImplemented(message) => error@ == Sim2hErrorView::NotImplemented(
                message@,
            ),
            Sim2hError::NoSuchSpace => error@ == Sim2hErrorView::NoSuchSpace,
            Sim2hError::Payload(text) => error@ == Sim2hErrorView::Payload(text@),
            Sim2hError::Transport(text) => error@ == Sim2hErrorView::Transport(text@),
        },
{
}

/// The view of a result says whether it is a success, and holds the view of its error.
pub proof fn law_result_view(result: Sim2hResult<()>)
    ensures
        result_view(result) is Ok <==> result is Ok,
        result matches Err(error) ==> result_view(result) == Err::<(), Sim2hErrorView>(error@),
{
}

} // verus!
