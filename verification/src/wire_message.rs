//! The messages that travel over a connection.
//!
//! Of a message that the server has no use for, it keeps the text that prints it: that is what
//! the variants `Other`, and `WireMessage::ClientToLib3hResponse`, hold.

use crate::data_types::{
    DirectMessageData, DirectMessageDataView, EntryListData, EntryListDataView, FetchEntryData,
    FetchEntryDataView, FetchEntryResultData, FetchEntryResultDataView, GetListData,
    GetListDataView, ProvidedEntryData, ProvidedEntryDataView, SpaceData, SpaceDataView,
    StoreEntryAspectData, StoreEntryAspectDataView,
};
use vstd::prelude::*;

verus! {

/// What a client asks of the server.
#[derive(Debug, PartialEq, Eq)]
pub enum ClientToLib3h {
    JoinSpace(SpaceData),
    LeaveSpace(SpaceData),
    SendDirectMessage(DirectMessageData),
    PublishEntry(ProvidedEntryData),
    Other(String),
}

#[verifier::ext_equal]
pub enum ClientToLib3hView {
    JoinSpace(SpaceDataView),
    LeaveSpace(SpaceDataView),
    SendDirectMessage(DirectMessageDataView),
    PublishEntry(ProvidedEntryDataView),
    Other(Seq<char>),
}

impl View for ClientToLib3h {
    type V = ClientToLib3hView;

    open spec fn view(&self) -> ClientToLib3hView {
        match self {
            ClientToLib3h::JoinSpace(data) => ClientToLib3hView::JoinSpace(data@),
            ClientToLib3h::LeaveSpace(data) => ClientToLib3hView::LeaveSpace(data@),
            ClientToLib3h::SendDirectMessage(data) => ClientToLib3hView::SendDirectMessage(data@),
            ClientToLib3h::PublishEntry(data) => ClientToLib3hView::PublishEntry(data@),
            ClientToLib3h::Other(data) => ClientToLib3hView::Other(data@),
        }
    }
}

impl Clone for ClientToLib3h {
    fn clone(&self) -> (copy: Self)
        ensures
            copy@ == self@,
    {
        match self {
            ClientToLib3h::JoinSpace(data) => ClientToLib3h::JoinSpace(data.clone()),
            ClientToLib3h::LeaveSpace(data) => ClientToLib3h::LeaveSpace(data.clone()),
            ClientToLib3h::SendDirectMessage(data) => {
                ClientToLib3h::SendDirectMessage(data.clone())
            },
            ClientToLib3h::PublishEntry(data) => ClientToLib3h::PublishEntry(data.clone()),
            ClientToLib3h::Other(data) => ClientToLib3h::Other(data.clone()),
        }
    }
}

/// What the server tells or asks a client.
#[derive(Debug, PartialEq, Eq)]
pub enum Lib3hToClient {
    HandleSendDirectMessage(DirectMessageData),
    SendDirectMessageResult(DirectMessageData),
    HandleFetchEntry(FetchEntryData),
    HandleStoreEntryAspect(StoreEntryAspectData),
    HandleGetAuthoringEntryList(GetListData),
    HandleGetGossipingEntryList(GetListData),
    Other(String),
}

#[verifier::ext_equal]
pub enum Lib3hToClientView {
    HandleSendDirectMessage(DirectMessageDataView),
    SendDirectMessageResult(DirectMessageDataView),
    HandleFetchEntry(FetchEntryDataView),
    HandleStoreEntryAspect(StoreEntryAspectDataView),
    HandleGetAuthoringEntryList(GetListDataView),
    HandleGetGossipingEntryList(GetListDataView),
    Other(Seq<char>),
}

impl View for Lib3hToClient {
    type V = Lib3hToClientView;

    open spec fn view(&self) -> Lib3hToClientView {
        match self {
            Lib3hToClient::HandleSendDirectMessage(data) => {
                Lib3hToClientView::HandleSendDirectMessage(data@)
            },
            Lib3hToClient::SendDirectMessageResult(data) => {
                Lib3hToClientView::SendDirectMessageResult(data@)
            },
            Lib3hToClient::HandleFetchEntry(data) => Lib3hToClientView::HandleFetchEntry(data@),
            Lib3hToClient::HandleStoreEntryAspect(data) => {
                Lib3hToClientView::HandleStoreEntryAspect(data@)
            },
            Lib3hToClient::HandleGetAuthoringEntryList(data) => {
                Lib3hToClientView::HandleGetAuthoringEntryList(data@)
            },
            Lib3hToClient::HandleGetGossipingEntryList(data) => {
                Lib3hToClientView::HandleGetGossipingEntryList(data@)
            },
            Lib3hToClient::Other(data) => Lib3hToClientView::Other(data@),
        }
    }
}

impl Clone for Lib3hToClient {
    fn clone(&self) -> (copy: Self)
        ensures
            copy@ == self@,
    {
        match self {
            Lib3hToClient::HandleSendDirectMessage(data) => {
                Lib3hToClient::HandleSendDirectMessage(data.clone())
            },
            Lib3hToClient::SendDirectMessageResult(data) => {
                Lib3hToClient::SendDirectMessageResult(data.clone())
            },
            Lib3hToClient::HandleFetchEntry(data) => Lib3hToClient::HandleFetchEntry(data.clone()),
            Lib3hToClient::HandleStoreEntryAspect(data) => {
                Lib3hToClient::HandleStoreEntryAspect(data.clone())
            },
            Lib3hToClient::HandleGetAuthoringEntryList(data) => {
                Lib3hToClient::HandleGetAuthoringEntryList(data.clone())
            },
            Lib3hToClient::HandleGetGossipingEntryList(data) => {
                Lib3hToClient::HandleGetGossipingEntryList(data.clone())
            },
            Lib3hToClient::Other(data) => Lib3hToClient::Other(data.clone()),
        }
    }
}

/// What a client answers to the server.
#[derive(Debug, PartialEq, Eq)]
pub enum Lib3hToClientResponse {
    HandleSendDirectMessageResult(DirectMessageData),
    HandleGetAuthoringEntryListResult(EntryListData),
    HandleGetGossipingEntryListResult(EntryListData),
    HandleFetchEntryResult(FetchEntryResultData),
    Other(String),
}

#[verifier::ext_equal]
pub enum Lib3hToClientResponseView {
    HandleSendDirectMessageResult(DirectMessageDataView),
    HandleGetAuthoringEntryListResult(EntryListDataView),
    HandleGetGossipingEntryListResult(EntryListDataView),
    HandleFetchEntryResult(FetchEntryResultDataView),
    Other(Seq<char>),
}

impl View for Lib3hToClientResponse {
    type V = Lib3hToClientResponseView;

    open spec fn view(&self) -> Lib3hToClientResponseView {
        match self {
            Lib3hToClientResponse::HandleSendDirectMessageResult(data) => {
                Lib3hToClientResponseView::HandleSendDirectMessageResult(data@)
            },
            Lib3hToClientResponse::HandleGetAuthoringEntryListResult(data) => {
                Lib3hToClientResponseView::HandleGetAuthoringEntryListResult(data@)
            },
            Lib3hToClientResponse::HandleGetGossipingEntryListResult(data) => {
                Lib3hToClientResponseView::HandleGetGossipingEntryListResult(data@)
            },
            Lib3hToClientResponse::HandleFetchEntryResult(data) => {
                Lib3hToClientResponseView::HandleFetchEntryResult(data@)
            },
            Lib3hToClientResponse::Other(data) => Lib3hToClientResponseView::Other(data@),
        }
    }
}

impl Clone for Lib3hToClientResponse {
    fn clone(&self) -> (copy: Self)
        ensures
            copy@ == self@,
    {
        match self {
            Lib3hToClientResponse::HandleSendDirectMessageResult(data) => {
                Lib3hToClientResponse::HandleSendDirectMessageResult(data.clone())
            },
            Lib3hToClientResponse::HandleGetAuthoringEntryListResult(data) => {
                Lib3hToClientResponse::HandleGetAuthoringEntryListResult(data.clone())
            },
            Lib3hToClientResponse::HandleGetGossipingEntryListResult(data) => {
                Lib3hToClientResponse::HandleGetGossipingEntryListResult(data.clone())
            },
            Lib3hToClientResponse::HandleFetchEntryResult(data) => {
                Lib3hToClientResponse::HandleFetchEntryResult(data.clone())
            },
            Lib3hToClientResponse::Other(data) => Lib3hToClientResponse::Other(data.clone()),
        }
    }
}

/// What the server reports to a client when it cannot serve it.
#[derive(Debug, PartialEq, Eq)]
pub enum WireError {
    MessageWhileInLimbo,
    Other(String),
}

#[verifier::ext_equal]
pub enum WireErrorView {
    MessageWhileInLimbo,
    Other(Seq<char>),
}

impl View for WireError {
    type V = WireErrorView;

    open spec fn view(&self) -> WireErrorView {
        match self {
            WireError::MessageWhileInLimbo => WireErrorView::MessageWhileInLimbo,
            WireError::Other(data) => WireErrorView::Other(data@),
        }
    }
}

impl Clone for WireError {
    fn clone(&self) -> (copy: Self)
        ensures
            copy@ == self@,
    {
        match self {
            WireError::MessageWhileInLimbo => WireError::MessageWhileInLimbo,
            WireError::Other(data) => WireError::Other(data.clone()),
        }
    }
}

/// A message, in either direction.
#[derive(Debug, PartialEq, Eq)]
pub enum WireMessage {
    Ping,
    Pong,
    ClientToLib3h(ClientToLib3h),
    ClientToLib3hResponse(String),
    Lib3hToClient(Lib3hToClient),
    Lib3hToClientResponse(Lib3hToClientResponse),
    Error(WireError),
}

#[verifier::ext_equal]
pub enum WireMessageView {
    Ping,
    Pong,
    ClientToLib3h(ClientToLib3hView),
    ClientToLib3hResponse(Seq<char>),
    Lib3hToClient(Lib3hToClientView),
    Lib3hToClientResponse(Lib3hToClientResponseView),
    Error(WireErrorView),
}

impl View for WireMessage {
    type V = WireMessageView;

    open spec fn view(&self) -> WireMessageView {
        match self {
            WireMessage::Ping => WireMessageView::Ping,
            WireMessage::Pong => WireMessageView::Pong,
            WireMessage::ClientToLib3h(data) => WireMessageView::ClientToLib3h(data@),
            WireMessage::ClientToLib3hResponse(data) => {
                WireMessageView::ClientToLib3hResponse(data@)
            },
            WireMessage::Lib3hToClient(data) => WireMessageView::Lib3hToClient(data@),
            WireMessage::Lib3hToClientResponse(data) => {
                WireMessageView::Lib3hToClientResponse(data@)
            },
            WireMessage::Error(data) => WireMessageView::Error(data@),
        }
    }
}

impl Clone for WireMessage {
    fn clone(&self) -> (copy: Self)
        ensures
            copy@ == self@,
    {
        match self {
            WireMessage::Ping => WireMessage::Ping,
            WireMessage::Pong => WireMessage::Pong,
            WireMessage::ClientToLib3h(data) => WireMessage::ClientToLib3h(data.clone()),
            WireMessage::ClientToLib3hResponse(data) => {
                WireMessage::ClientToLib3hResponse(data.clone())
            },
            WireMessage::Lib3hToClient(data) => WireMessage::Lib3hToClient(data.clone()),
            WireMessage::Lib3hToClientResponse(data) => {
                WireMessage::Lib3hToClientResponse(data.clone())
            },
            WireMessage::Error(data) => WireMessage::Error(data.clone()),
        }
    }
}

} // verus!
