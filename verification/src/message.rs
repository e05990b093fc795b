//! Projection over a raw incoming publish frame: borrowed accessors for the
//! frame's id, topic and payload, and an explicit materialization that lifts
//! the borrowed view into an owned message with an independent lifetime.

use vstd::prelude::*;
use vstd::slice::slice_to_vec;

verus! {

/// Numeric handle linking a command to its eventual acknowledgment event.
pub type MessageId = u32;

/// How much of a message a frame carries. This layer attempts no reassembly
/// of chunked messages, so a frame is always complete.
#[derive(Clone, Copy, Debug, PartialEq, Eq, Structural)]
pub enum Details {
    Complete,
}

/// The plain values of one raw incoming publish frame, as handed over by the
/// external event loop: packet id, topic and payload.
pub struct RawMessage {
    pub pkid: u16,
    pub topic: String,
    pub payload: Vec<u8>,
}

/// An owned message, independent of the raw frame it was taken from.
pub struct Message {
    pub id: MessageId,
    pub topic: String,
    pub payload: Vec<u8>,
    pub details: Details,
}

/// A borrowed view over a raw incoming frame. It must not outlive the frame;
/// `into_message_impl` materializes an owned copy when the message has to be
/// retained past the current poll step.
pub struct MessageRef<'a>(pub &'a RawMessage);

impl<'a> MessageRef<'a> {
    /// The correlation id the frame carries.
    pub fn id(&self) -> (id: MessageId)
        ensures
            id == self.0.pkid as MessageId,
    {
        self.0.pkid as MessageId
    }

    /// The topic the frame was published on.
    pub fn topic(&self) -> (topic: Option<&'a str>)
        ensures
            topic is Some,
            topic->Some_0@ == self.0.topic@,
    {
        Some(self.0.topic.as_str())
    }

    /// The payload bytes, borrowed from the frame.
    pub fn data(&self) -> (data: &'a [u8])
        ensures
            data@ == self.0.payload@,
    {
        self.0.payload.as_slice()
    }

    /// How much of the message this frame carries: always all of it.
    pub fn details(&self) -> (details: Details)
        ensures
            details == Details::Complete,
    {
        Details::Complete
    }

    /// Materialize an owned copy of the viewed frame. The copy's id, topic
    /// and payload equal the view's, and the copy does not borrow from the
    /// frame, so dropping the frame leaves it unchanged.
    pub fn into_message_impl(&self) -> (message: Option<Message>)
        ensures
            message is Some,
            message->Some_0.id == self.0.pkid as MessageId,
            message->Some_0.topic@ == self.0.topic@,
            message->Some_0.payload@ == self.0.payload@,
            message->Some_0.details == Details::Complete,
    {
        Some(Message {
            id: self.0.pkid as MessageId,
            topic: self.0.topic.clone(),
            payload: slice_to_vec(self.0.payload.as_slice()),
            details: Details::Complete,
        })
    }
}

} // verus!
