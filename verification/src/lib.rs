//! A relay for agents that meet in spaces.
//!
//! Agents connect to the server, join a space, and from then on send each other direct messages
//! and publish entries through it. What one agent publishes goes to all others that are there,
//! those that come later are helped to it by one of the others, and nothing leaves the space.
//!
//! [`Sim2h`] takes in what the transport reports and collects in its outbox what is to be done.
//! The rules by which it does so are functions on [`rules::ServerState`], and the contracts of
//! its methods speak of them. [`conduct`] and [`sessions`] state what the rules do with each
//! message and event, and [`laws`] and [`sync_laws`] what follows for the server as a whole;
//! [`views`] states that nothing is lost between a value and what contracts say of it.

pub mod cache;
pub mod conduct;
pub mod connection_state;
pub mod data_types;
pub mod effect;
pub mod error;
pub mod events;
pub mod invariants;
pub mod keyed;
pub mod laws;
pub mod process;
pub mod rules;
pub mod server;
pub mod sessions;
pub mod sync_laws;
pub mod views;
pub mod wire_message;

pub use crate::effect::Effect;
pub use crate::error::{Sim2hError, Sim2hResult};
pub use crate::events::{SignedWireMessage, StreamEvent};
pub use crate::server::Sim2h;
pub use crate::wire_message::{WireError, WireMessage};
