//! How far an agent has come on a connection.

use crate::data_types::{AgentId, SpaceHash};
use crate::wire_message::{WireMessage, WireMessageView};
use vstd::prelude::*;

verus! {

/// A connection is in limbo until its agent joins a space. The messages that come in limbo,
/// but for pings and for attempts to join, wait for that.
#[derive(Debug, PartialEq, Eq)]
pub enum ConnectionState {
    Limbo(Vec<WireMessage>),
    Joined(SpaceHash, AgentId),
}

#[verifier::ext_equal]
pub enum ConnectionView {
    Limbo { pending: Seq<WireMessageView> },
    Joined { space: Seq<char>, agent: Seq<char> },
}

/// The views of a sequence of messages.
pub open spec fn message_views(messages: Seq<WireMessage>) -> Seq<WireMessageView> {
    messages.map_values(|m: WireMessage| m@)
}

impl View for ConnectionState {
    type V = ConnectionView;

    open spec fn view(&self) -> ConnectionView {
        match self {
            ConnectionState::Limbo(messages) => {
                ConnectionView::Limbo { pending: message_views(messages@) }
            },
            ConnectionState::Joined(space, agent) => {
                ConnectionView::Joined { space: space@, agent: agent@ }
            },
        }
    }
}

impl Clone for ConnectionState {
    fn clone(&self) -> (copy: Self)
        ensures
            copy@ == self@,
    {
        match self {
            ConnectionState::Limbo(messages) => {
                let pending = messages.clone();
                assert forall|i: int| 0 <= i < messages@.len() implies pending@[i]@
                    == messages@[i]@ by {
                    assert(cloned::<WireMessage>(messages@[i], pending@[i]));
                }
                assert(message_views(pending@) =~= message_views(messages@));
                ConnectionState::Limbo(pending)
            },
            ConnectionState::Joined(space, agent) => {
                ConnectionState::Joined(space.clone(), agent.clone())
            },
        }
    }
}

impl ConnectionState {
    /// A connection on which nothing was received.
    pub fn new() -> (state: Self)
        ensures
            state@ == (ConnectionView::Limbo { pending: Seq::empty() }),
    {
        let pending: Vec<WireMessage> = Vec::new();
        assert(message_views(pending@) =~= Seq::<WireMessageView>::empty());
        ConnectionState::Limbo(pending)
    }
}

} // verus!
