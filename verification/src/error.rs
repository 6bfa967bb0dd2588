//! The ways in which the server refuses a message.

use crate::data_types::{AgentId, Lib3hUri};
use crate::wire_message::{
    ClientToLib3h, ClientToLib3hView, Lib3hToClient, Lib3hToClientResponse,
    Lib3hToClientResponseView, Lib3hToClientView, WireError, WireErrorView, WireMessage,
    WireMessageView,
};
use vstd::prelude::*;
use vstd::string::*;

verus! {

#[derive(Debug, PartialEq, Eq)]
pub enum Sim2hError {
    /// The signature of a message does not fit it.
    VerifyFailed,
    /// The signer of a message is not the agent that it speaks for.
    SignerMismatch,
    /// A message names another agent or space than its sender's.
    SpaceMismatch,
    /// Nothing is connected there.
    NoConnection(Lib3hUri),
    /// The connection does not wait for its agent to join.
    NotInLimbo(Lib3hUri),
    /// No agent of that connection is in a space.
    NotJoined(Lib3hUri),
    /// A message is addressed to an agent that is not in the space.
    UnvalidatedProxyAgent(AgentId),
    /// An agent that is in a space asks to join one.
    JoinNotProxied,
    /// The server has no use for the message.
    NotImplemented(WireMessage),
    /// There is no such space.
    NoSuchSpace,
    /// A payload is no message; the text says why.
    Payload(String),
    /// The transport failed; the text says why.
    Transport(String),
}

pub type Sim2hResult<T> = Result<T, Sim2hError>;

#[verifier::ext_equal]
pub enum Sim2hErrorView {
    VerifyFailed,
    SignerMismatch,
    SpaceMismatch,
    NoConnection(Seq<char>),
    NotInLimbo(Seq<char>),
    NotJoined(Seq<char>),
    UnvalidatedProxyAgent(Seq<char>),
    JoinNotProxied,
    NotImplemented(WireMessageView),
    NoSuchSpace,
    Payload(Seq<char>),
    Transport(Seq<char>),
}

impl View for Sim2hError {
    type V = Sim2hErrorView;

    open spec fn view(&self) -> Sim2hErrorView {
        match self {
            Sim2hError::VerifyFailed => Sim2hErrorView::VerifyFailed,
            Sim2hError::SignerMismatch => Sim2hErrorView::SignerMismatch,
            Sim2hError::SpaceMismatch => Sim2hErrorView::SpaceMismatch,
            Sim2hError::NoConnection(uri) => Sim2hErrorView::NoConnection(uri@),
            Sim2hError::NotInLimbo(uri) => Sim2hErrorView::NotInLimbo(uri@),
            Sim2hError::NotJoined(uri) => Sim2hErrorView::NotJoined(uri@),
            Sim2hError::UnvalidatedProxyAgent(agent) => {
                Sim2hErrorView::UnvalidatedProxyAgent(agent@)
            },
            Sim2hError::JoinNotProxied => Sim2hErrorView::JoinNotProxied,
            Sim2hError::NotImplemented(message) => Sim2hErrorView::NotImplemented(message@),
            Sim2hError::NoSuchSpace => Sim2hErrorView::NoSuchSpace,
            Sim2hError::Payload(text) => Sim2hErrorView::Payload(text@),
            Sim2hError::Transport(text) => Sim2hErrorView::Transport(text@),
        }
    }
}

/// The view of a result that carries nothing on success.
pub open spec fn result_view(result: Sim2hResult<()>) -> Result<(), Sim2hErrorView> {
    match result {
        Ok(_) => Ok(()),
        Err(error) => Err(error@),
    }
}

/// The text that `format!` makes of a message with `{:?}`.
pub uninterp spec fn debug_text_of(message: WireMessageView) -> Seq<char>;

/// Calls std's `format!` with `{:?}`, which writes the message's variants and fields out.
/// Claimed is only that equal messages give equal texts; the text has a name and is not
/// described.
#[verifier::external_body]
fn debug_text(message: &WireMessage) -> (text: String)
    ensures
        text@ == debug_text_of(message@),
{
    format!("{:?}", message)
}

/// How a message prints: as `format!` writes it out with `{:?}`, but that an error is called
/// `Err`, and that a message of which only the text was kept prints as that text.
pub open spec fn message_text(message: WireMessageView) -> Seq<char> {
    match message {
        WireMessageView::Error(WireErrorView::MessageWhileInLimbo) => "Err(MessageWhileInLimbo)"@,
        WireMessageView::Error(WireErrorView::Other(text)) => "Err("@ + text + ")"@,
        WireMessageView::ClientToLib3h(ClientToLib3hView::Other(text)) => {
            "ClientToLib3h("@ + text + ")"@
        },
        WireMessageView::ClientToLib3hResponse(text) => "ClientToLib3hResponse("@ + text + ")"@,
        WireMessageView::Lib3hToClient(Lib3hToClientView::Other(text)) => {
            "Lib3hToClient("@ + text + ")"@
        },
        WireMessageView::Lib3hToClientResponse(Lib3hToClientResponseView::Other(text)) => {
            "Lib3hToClientResponse("@ + text + ")"@
        },
        _ => debug_text_of(message),
    }
}

/// A text in brackets behind a name and its opening bracket.
fn named(name: &str, text: &String) -> (whole: String)
    ensures
        whole@ == name@ + text@ + ")"@,
{
    name.to_owned().concat(text.as_str()).concat(")")
}

/// The message as a text to read.
fn print(message: &WireMessage) -> (text: String)
    ensures
        text@ == message_text(message@),
{
    match message {
        WireMessage::Error(WireError::MessageWhileInLimbo) => {
            "Err(MessageWhileInLimbo)".to_owned()
        },
        WireMessage::Error(WireError::Other(text)) => named("Err(", text),
        WireMessage::ClientToLib3h(ClientToLib3h::Other(text)) => named("ClientToLib3h(", text),
        WireMessage::ClientToLib3hResponse(text) => named("ClientToLib3hResponse(", text),
        WireMessage::Lib3hToClient(Lib3hToClient::Other(text)) => named("Lib3hToClient(", text),
        WireMessage::Lib3hToClientResponse(Lib3hToClientResponse::Other(text)) => {
            named("Lib3hToClientResponse(", text)
        },
        _ => debug_text(message),
    }
}

/// What an error says.
pub open spec fn error_text(error: Sim2hErrorView) -> Seq<char> {
    match error {
        Sim2hErrorView::VerifyFailed => "message verification failed"@,
        Sim2hErrorView::SignerMismatch => "message signer mismatch"@,
        Sim2hErrorView::SpaceMismatch => "space/agent id mismatch"@,
        Sim2hErrorView::NoConnection(uri) => "no connection for "@ + uri,
        Sim2hErrorView::NotInLimbo(uri) => "no agent found in limbo at "@ + uri + " "@,
        Sim2hErrorView::NotJoined(uri) => "no joined agent found at "@ + uri + " "@,
        Sim2hErrorView::UnvalidatedProxyAgent(agent) => "unvalidated proxy agent "@ + agent,
        Sim2hErrorView::JoinNotProxied => {
            "join message should have been processed elsewhere and can't be proxied"@
        },
        Sim2hErrorView::NotImplemented(message) => {
            "Message not implemented: "@ + message_text(message)
        },
        Sim2hErrorView::NoSuchSpace => "No such space"@,
        Sim2hErrorView::Payload(text) => text,
        Sim2hErrorView::Transport(text) => text,
    }
}

impl Sim2hError {
    /// The error as a text to read.
    pub fn text(&self) -> (text: String)
        ensures
            text@ == error_text(self@),
    {
        match self {
            Sim2hError::VerifyFailed => "message verification failed".to_owned(),
            Sim2hError::SignerMismatch => "message signer mismatch".to_owned(),
            Sim2hError::SpaceMismatch => "space/agent id mismatch".to_owned(),
            Sim2hError::NoConnection(uri) => "no connection for ".to_owned().concat(uri.as_str()),
            Sim2hError::NotInLimbo(uri) => {
                "no agent found in limbo at ".to_owned().concat(uri.as_str()).concat(" ")
            },
            Sim2hError::NotJoined(uri) => {
                "no joined agent found at ".to_owned().concat(uri.as_str()).concat(" ")
            },
            Sim2hError::UnvalidatedProxyAgent(agent) => {
                "unvalidated proxy agent ".to_owned().concat(agent.as_str())
            },
            Sim2hError::JoinNotProxied => {
                "join message should have been processed elsewhere and can't be proxied".to_owned()
            },
            Sim2hError::NotImplemented(message) => {
                "Message not implemented: ".to_owned().concat(print(message).as_str())
            },
            Sim2hError::NoSuchSpace => "No such space".to_owned(),
            Sim2hError::Payload(text) => text.clone(),
            Sim2hError::Transport(text) => text.clone(),
        }
    }
}

} // verus!
