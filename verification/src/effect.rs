//! What the server has its surroundings do.

use crate::data_types::{AgentId, Lib3hUri};
use crate::wire_message::{WireMessage, WireMessageView};
use vstd::prelude::*;

verus! {

/// Something to do outside of the server, in the order in which the server asks for it.
#[derive(Debug, PartialEq, Eq)]
pub enum Effect {
    /// Note in the message log that the agent's message came in.
    LogIn { agent: AgentId, uri: Lib3hUri, message: WireMessage },
    /// Send the message to the agent's connection and, if `logged`, first note in the message
    /// log that it goes out.
    Send { agent: AgentId, uri: Lib3hUri, message: WireMessage, logged: bool },
}

#[verifier::ext_equal]
pub enum EffectView {
    LogIn { agent: Seq<char>, uri: Seq<char>, message: WireMessageView },
    Send { agent: Seq<char>, uri: Seq<char>, message: WireMessageView, logged: bool },
}

impl View for Effect {
    type V = EffectView;

    open spec fn view(&self) -> EffectView {
        match self {
            Effect::LogIn { agent, uri, message } => {
                EffectView::LogIn { agent: agent@, uri: uri@, message: message@ }
            },
            Effect::Send { agent, uri, message, logged } => {
                EffectView::Send { agent: agent@, uri: uri@, message: message@, logged: *logged }
            },
        }
    }
}

/// The views of a sequence of effects.
pub open spec fn effect_views(effects: Seq<Effect>) -> Seq<EffectView> {
    effects.map_values(|e: Effect| e@)
}

/// A message is sent to an agent's connection. The message log keeps all but pings and pongs.
pub open spec fn sent(agent: Seq<char>, uri: Seq<char>, message: WireMessageView) -> EffectView {
    EffectView::Send { agent, uri, message, logged: !(message is Ping || message is Pong) }
}

} // verus!
