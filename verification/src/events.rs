//! What the transport reports, and the rules by which the server takes it in.

use crate::data_types::{AgentId, Lib3hUri};
use crate::effect::EffectView;
use crate::error::{Sim2hError, Sim2hErrorView, Sim2hResult};
use crate::rules::{
    connect_state, disconnect_state, message_emits, message_ok, message_result, message_state,
    ServerState,
};
use crate::wire_message::{WireMessage, WireMessageView};
use vstd::prelude::*;

verus! {

/// A payload that was taken apart: who signed it, whether the signature fits, and the message
/// in it, or why it holds none.
#[derive(Debug, PartialEq, Eq)]
pub struct SignedWireMessage {
    pub source: AgentId,
    pub verified: bool,
    pub payload: Result<WireMessage, String>,
}

#[verifier::ext_equal]
pub struct SignedWireMessageView {
    pub source: Seq<char>,
    pub verified: bool,
    pub payload: Result<WireMessageView, Seq<char>>,
}

impl View for SignedWireMessage {
    type V = SignedWireMessageView;

    open spec fn view(&self) -> SignedWireMessageView {
        SignedWireMessageView {
            source: self.source@,
            verified: self.verified,
            payload: match self.payload {
                Ok(message) => Ok(message@),
                Err(text) => Err(text@),
            },
        }
    }
}

/// The view of a payload, or of why it could not be taken apart.
pub open spec fn received_view(received: Result<SignedWireMessage, String>) -> Result<
    SignedWireMessageView,
    Seq<char>,
> {
    match received {
        Ok(signed) => Ok(signed@),
        Err(text) => Err(text@),
    }
}

/// A payload counts only if it was taken apart, its signature fits and it holds a message.
pub open spec fn verify_result(received: Result<SignedWireMessageView, Seq<char>>) -> Result<
    (Seq<char>, WireMessageView),
    Sim2hErrorView,
> {
    match received {
        Err(text) => Err(Sim2hErrorView::Payload(text)),
        Ok(signed) => if !signed.verified {
            Err(Sim2hErrorView::VerifyFailed)
        } else {
            match signed.payload {
                Err(text) => Err(Sim2hErrorView::Payload(text)),
                Ok(message) => Ok((signed.source, message)),
            }
        },
    }
}

/// The signer and the message of a payload.
pub fn verify_payload(received: Result<SignedWireMessage, String>) -> (result: Sim2hResult<
    (AgentId, WireMessage),
>)
    ensures
        match result {
            Ok((source, message)) => verify_result(received_view(received)) == Ok::<
                (Seq<char>, WireMessageView),
                Sim2hErrorView,
            >((source@, message@)),
            Err(error) => verify_result(received_view(received)) == Err::<
                (Seq<char>, WireMessageView),
                Sim2hErrorView,
            >(error@),
        },
{
    let signed_message = match received {
        Ok(signed_message) => signed_message,
        Err(text) => return Err(Sim2hError::Payload(text)),
    };
    if !signed_message.verified {
        return Err(Sim2hError::VerifyFailed);
    }
    match signed_message.payload {
        Ok(wire_message) => Ok((signed_message.source, wire_message)),
        Err(text) => Err(Sim2hError::Payload(text)),
    }
}

/// What the transport reports of a connection.
#[derive(Debug, PartialEq, Eq)]
pub enum StreamEvent {
    /// A payload came in.
    ReceivedData(Lib3hUri, Result<SignedWireMessage, String>),
    /// Someone has connected.
    IncomingConnectionEstablished(Lib3hUri),
    /// The connection has ended.
    ConnectionClosed(Lib3hUri),
    /// A connection that the server asked for stands, under some id of the network.
    ConnectResult(Lib3hUri, String),
    /// The transport failed on the connection.
    ErrorOccured(Lib3hUri, String),
}

#[verifier::ext_equal]
pub enum StreamEventView {
    ReceivedData(Seq<char>, Result<SignedWireMessageView, Seq<char>>),
    IncomingConnectionEstablished(Seq<char>),
    ConnectionClosed(Seq<char>),
    ConnectResult(Seq<char>, Seq<char>),
    ErrorOccured(Seq<char>, Seq<char>),
}

impl View for StreamEvent {
    type V = StreamEventView;

    open spec fn view(&self) -> StreamEventView {
        match self {
            StreamEvent::ReceivedData(uri, received) => {
                StreamEventView::ReceivedData(uri@, received_view(*received))
            },
            StreamEvent::IncomingConnectionEstablished(uri) => {
                StreamEventView::IncomingConnectionEstablished(uri@)
            },
            StreamEvent::ConnectionClosed(uri) => StreamEventView::ConnectionClosed(uri@),
            StreamEvent::ConnectResult(uri, net_id) => {
                StreamEventView::ConnectResult(uri@, net_id@)
            },
            StreamEvent::ErrorOccured(uri, error) => StreamEventView::ErrorOccured(uri@, error@),
        }
    }
}

/// The views of a sequence of events.
pub open spec fn event_views(events: Seq<StreamEvent>) -> Seq<StreamEventView> {
    events.map_values(|e: StreamEvent| e@)
}

/// How the server answers for an event.
pub open spec fn event_result(s: ServerState, event: StreamEventView) -> Result<
    (),
    Sim2hErrorView,
> {
    match event {
        StreamEventView::ReceivedData(uri, received) => match verify_result(received) {
            Ok((source, message)) => message_result(s, uri, message, source),
            Err(error) => Err(error),
        },
        _ => Ok(()),
    }
}

/// What the server knows after an event.
pub open spec fn event_state(s: ServerState, event: StreamEventView) -> ServerState {
    match event {
        StreamEventView::ReceivedData(uri, received) => match verify_result(received) {
            Ok((source, message)) => message_state(s, uri, message, source),
            Err(_) => s,
        },
        StreamEventView::IncomingConnectionEstablished(uri) => connect_state(s, uri),
        StreamEventView::ConnectionClosed(uri) => disconnect_state(s, uri),
        _ => s,
    }
}

/// The effects `out` are what an event can bring about.
pub open spec fn event_emits(
    s: ServerState,
    event: StreamEventView,
    out: Seq<EffectView>,
) -> bool {
    match event {
        StreamEventView::ReceivedData(uri, received) => match verify_result(received) {
            Ok((source, message)) => message_emits(s, uri, message, source, out),
            Err(_) => out.len() == 0,
        },
        _ => out.len() == 0,
    }
}

/// The server can take the event in.
pub open spec fn event_ok(s: ServerState, event: StreamEventView) -> bool {
    match event {
        StreamEventView::ReceivedData(uri, received) => match verify_result(received) {
            Ok((source, message)) => message_ok(s, uri, message, source),
            Err(_) => true,
        },
        _ => true,
    }
}

/// What the server knows after the events.
pub open spec fn events_state(s: ServerState, events: Seq<StreamEventView>) -> ServerState
    decreases events.len(),
{
    if events.len() == 0 {
        s
    } else {
        event_state(events_state(s, events.drop_last()), events.last())
    }
}

/// The effects `out` are what the events can bring about, event by event.
pub open spec fn events_emit(
    s: ServerState,
    events: Seq<StreamEventView>,
    out: Seq<EffectView>,
) -> bool
    decreases events.len(),
{
    if events.len() == 0 {
        out.len() == 0
    } else {
        exists|k: int|
            0 <= k <= out.len() && events_emit(s, events.drop_last(), #[trigger] out.take(k))
                && event_emits(events_state(s, events.drop_last()), events.last(), out.skip(k))
    }
}

/// The server can take each of the events in when it has taken in those before it.
pub open spec fn events_ok(s: ServerState, events: Seq<StreamEventView>) -> bool {
    forall|i: int|
        0 <= i < events.len() ==> event_ok(
            events_state(s, events.take(i)),
            #[trigger] events[i],
        )
}

} // verus!
