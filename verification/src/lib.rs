//! Adapter layer between a concrete MQTT client/event-loop library and a
//! generic asynchronous service abstraction, together with an HTTP-side
//! request/response state machine and a handler dispatch chain.
//!
//! The concrete transport (sockets, MQTT wire framing, the executor) is an
//! external collaborator; this crate holds the event-translation logic, the
//! command facade, the message projection, the connection state machine and
//! the dispatcher, each with a verified contract.

pub mod client;
pub mod conn;
pub mod events;
pub mod handler;
pub mod http;
pub mod message;
pub mod qos;

use vstd::prelude::*;

verus! {

/// A fault of the exchange itself: a malformed request head, or an operation
/// attempted in a connection phase that does not permit it.
#[derive(Clone, Copy, Debug, PartialEq, Eq, Structural)]
pub enum ProtocolError {
    /// The request line or a header line does not follow the expected grammar.
    Malformed,
    /// The operation is not legal in the connection's current phase.
    OutOfPhase,
}

} // verus!
