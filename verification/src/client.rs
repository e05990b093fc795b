//! Client command facade: builds the subscribe, unsubscribe and publish
//! commands handed to the external command sink, and normalizes the sink's
//! acceptance into a correlation id, forwarding a rejection verbatim.
//!
//! The sink itself (an asynchronous collaborator) stays with the caller: the
//! caller asks the facade for the command, issues it, and hands the outcome
//! back to [`MqttClient::complete`].

use vstd::prelude::*;
use crate::message::MessageId;
use crate::qos::QoS;

verus! {

/// The correlation id the facade hands back for an accepted command. The
/// protocol-assigned id is not propagated by this layer; every accepted
/// command reports this degenerate placeholder.
pub const PLACEHOLDER_ID: MessageId = 0;

/// One command for the external command sink, with the quality-of-service
/// level already translated to the sink's numeric code.
pub enum Command {
    Subscribe { topic: String, qos_level: u8 },
    Unsubscribe { topic: String },
    Publish { topic: String, qos_level: u8, retain: bool, payload: Vec<u8> },
}

/// The command facade over one external client handle.
pub struct MqttClient {
    _private: (),
}

impl MqttClient {
    /// A facade over the caller's command sink.
    pub fn new() -> (client: Self) {
        MqttClient { _private: () }
    }

    /// The subscribe command for a topic at a quality-of-service level.
    pub fn subscribe(&self, topic: &str, qos: QoS) -> (cmd: Command)
        ensures
            cmd is Subscribe,
            cmd->Subscribe_topic@ == topic@,
            cmd->Subscribe_qos_level == qos.spec_level(),
    {
        Command::Subscribe { topic: topic.to_owned(), qos_level: qos.to_external() }
    }

    /// The unsubscribe command for a topic.
    pub fn unsubscribe(&self, topic: &str) -> (cmd: Command)
        ensures
            cmd is Unsubscribe,
            cmd->Unsubscribe_topic@ == topic@,
    {
        Command::Unsubscribe { topic: topic.to_owned() }
    }

    /// The publish command for a payload on a topic at a quality-of-service
    /// level, with or without the retain flag.
    pub fn publish(&self, topic: &str, qos: QoS, retain: bool, payload: &[u8]) -> (cmd: Command)
        ensures
            cmd is Publish,
            cmd->Publish_topic@ == topic@,
            cmd->Publish_qos_level == qos.spec_level(),
            cmd->Publish_retain == retain,
            cmd->Publish_payload@ == payload@,
    {
        Command::Publish {
            topic: topic.to_owned(),
            qos_level: qos.to_external(),
            retain,
            payload: vstd::slice::slice_to_vec(payload),
        }
    }

    /// Normalize the sink's outcome for an issued command: acceptance yields
    /// the placeholder correlation id, a rejection is forwarded verbatim.
    pub fn complete<E>(&self, outcome: Result<(), E>) -> (r: Result<MessageId, E>)
        ensures
            outcome is Ok ==> r == Result::<MessageId, E>::Ok(PLACEHOLDER_ID),
            outcome is Err ==> r == Result::<MessageId, E>::Err(outcome->Err_0),
    {
        match outcome {
            Ok(()) => Ok(PLACEHOLDER_ID),
            Err(e) => Err(e),
        }
    }
}

} // verus!
