//! Event normalization: the closed set of normalized event variants, the
//! classification of raw protocol frames, and the per-poll decision step that
//! drives the loop over the external event source.
//!
//! The external event loop itself (an asynchronous, blocking-capable
//! collaborator) is out of reach here; the caller polls it and hands each
//! outcome to [`MqttConnection::step`], which decides whether the outcome is
//! yielded to the application or silently discarded.

use vstd::prelude::*;
use crate::message::{MessageId, RawMessage};

verus! {

/// One raw protocol frame from the external event loop, reduced to the plain
/// values this layer reads. Frames in the outgoing direction, and incoming
/// kinds this layer does not recognize, are `Outgoing` and `Other`.
pub enum RawFrame {
    Connect,
    ConnAck,
    Disconnect,
    PubAck { pkid: u16 },
    SubAck { pkid: u16 },
    UnsubAck { pkid: u16 },
    Publish { message: RawMessage },
    Outgoing,
    Other,
}

/// A normalized protocol event, as handed to the application.
pub enum Event<M> {
    BeforeConnect,
    Connected(bool),
    Disconnected,
    Published(MessageId),
    Subscribed(MessageId),
    Unsubscribed(MessageId),
    Received(M),
}

/// What one poll step decides: yield an outcome to the application, or pull
/// the next raw event because this one carries nothing the application needs.
pub enum PollStep<M, E> {
    Yield(Result<Event<M>, E>),
    Continue,
}

/// A frame that carries no information the application needs: an
/// outgoing-direction frame or an unrecognized incoming kind.
pub open spec fn is_ignorable(frame: RawFrame) -> bool {
    frame is Outgoing || frame is Other
}

/// What one raw frame contributes to the normalized stream under a given
/// message filter: a normalized event, or nothing for ignorable frames and
/// for messages the filter rejects.
pub open spec fn classify<M>(frame: RawFrame, filter: spec_fn(RawMessage) -> Option<M>) -> Option<
    Event<M>,
> {
    match frame {
        RawFrame::Connect => Some(Event::BeforeConnect),
        RawFrame::ConnAck => Some(Event::Connected(true)),
        RawFrame::Disconnect => Some(Event::Disconnected),
        RawFrame::PubAck { pkid } => Some(Event::Published(pkid as MessageId)),
        RawFrame::SubAck { pkid } => Some(Event::Subscribed(pkid as MessageId)),
        RawFrame::UnsubAck { pkid } => Some(Event::Unsubscribed(pkid as MessageId)),
        RawFrame::Publish { message } => match filter(message) {
            Some(m) => Some(Event::Received(m)),
            None => None,
        },
        RawFrame::Outgoing => None,
        RawFrame::Other => None,
    }
}

/// The normalized event sequence a raw frame sequence yields under a given
/// filter, when no transport error interrupts it.
pub open spec fn normalize<M>(
    frames: Seq<RawFrame>,
    filter: spec_fn(RawMessage) -> Option<M>,
) -> Seq<Event<M>>
    decreases frames.len(),
{
    if frames.len() == 0 {
        Seq::empty()
    } else {
        match classify(frames[0], filter) {
            Some(e) => seq![e] + normalize(frames.drop_first(), filter),
            None => normalize(frames.drop_first(), filter),
        }
    }
}

/// What the decision step promises: a transport error is yielded verbatim, a
/// recognized incoming frame is yielded as its normalized event, an ignorable
/// frame is discarded, and a publish frame is yielded exactly when the filter
/// accepts its message.
pub open spec fn step_post<M, E, F: Fn(RawMessage) -> Option<M>>(
    filter: F,
    polled: Result<RawFrame, E>,
    r: PollStep<M, E>,
) -> bool {
    match polled {
        Err(e) => r == PollStep::<M, E>::Yield(Err(e)),
        Ok(frame) => match frame {
            RawFrame::Connect => r == PollStep::<M, E>::Yield(Ok(Event::BeforeConnect)),
            RawFrame::ConnAck => r == PollStep::<M, E>::Yield(Ok(Event::Connected(true))),
            RawFrame::Disconnect => r == PollStep::<M, E>::Yield(Ok(Event::Disconnected)),
            RawFrame::PubAck { pkid } => r == PollStep::<M, E>::Yield(
                Ok(Event::Published(pkid as MessageId)),
            ),
            RawFrame::SubAck { pkid } => r == PollStep::<M, E>::Yield(
                Ok(Event::Subscribed(pkid as MessageId)),
            ),
            RawFrame::UnsubAck { pkid } => r == PollStep::<M, E>::Yield(
                Ok(Event::Unsubscribed(pkid as MessageId)),
            ),
            RawFrame::Publish { message } => match r {
                PollStep::Continue => call_ensures(filter, (message,), None),
                PollStep::Yield(out) => match out {
                    Ok(e) => match e {
                        Event::Received(m) => call_ensures(filter, (message,), Some(m)),
                        _ => false,
                    },
                    Err(_) => false,
                },
            },
            RawFrame::Outgoing => r == PollStep::<M, E>::Continue,
            RawFrame::Other => r == PollStep::<M, E>::Continue,
        },
    }
}

/// The normalizer over one MQTT connection: holds the caller-supplied filter
/// that converts or rejects each incoming message. The external event loop
/// stays with the caller, who polls it and hands every outcome to `step`.
pub struct MqttConnection<F> {
    pub filter: F,
}

impl<F> MqttConnection<F> {
    /// A normalizer over the given message filter.
    pub fn new(filter: F) -> (conn: Self)
        ensures
            conn.filter == filter,
    {
        MqttConnection { filter }
    }

    /// Decide what one polled outcome of the external event loop means: the
    /// first transport error is forwarded verbatim, recognized incoming
    /// frames become their normalized events, ignorable frames and messages
    /// the filter rejects are discarded so the caller pulls the next event.
    pub fn step<M, E>(&self, polled: Result<RawFrame, E>) -> (r: PollStep<M, E>) where
        F: Fn(RawMessage) -> Option<M>,

        requires
            forall|m: RawMessage| call_requires(self.filter, (m,)),
        ensures
            step_post(self.filter, polled, r),
    {
        match polled {
            Err(e) => PollStep::Yield(Err(e)),
            Ok(frame) => match frame {
                RawFrame::Connect => PollStep::Yield(Ok(Event::BeforeConnect)),
                RawFrame::ConnAck => PollStep::Yield(Ok(Event::Connected(true))),
                RawFrame::Disconnect => PollStep::Yield(Ok(Event::Disconnected)),
                RawFrame::PubAck { pkid } => PollStep::Yield(Ok(Event::Published(pkid as MessageId))),
                RawFrame::SubAck { pkid } => PollStep::Yield(Ok(Event::Subscribed(pkid as MessageId))),
                RawFrame::UnsubAck { pkid } => PollStep::Yield(
                    Ok(Event::Unsubscribed(pkid as MessageId)),
                ),
                RawFrame::Publish { message } => match (self.filter)(message) {
                    Some(m) => PollStep::Yield(Ok(Event::Received(m))),
                    None => PollStep::Continue,
                },
                RawFrame::Outgoing => PollStep::Continue,
                RawFrame::Other => PollStep::Continue,
            },
        }
    }
}

/// Law: a message the caller-supplied filter rejects is never yielded as a
/// `Received` event; the step discards it, so the caller continues to the
/// next raw event instead of ending the stream.
pub proof fn lemma_rejected_never_received<M, E, F: Fn(RawMessage) -> Option<M>>(
    filter: F,
    message: RawMessage,
    r: PollStep<M, E>,
)
    requires
        step_post(filter, Ok::<RawFrame, E>(RawFrame::Publish { message }), r),
        forall|out: Option<M>| call_ensures(filter, (message,), out) ==> out is None,
    ensures
        r == PollStep::<M, E>::Continue,
{
}

/// Law: for a filter whose outcomes agree with a given specification
/// function, one decision step on a frame yields exactly what the spec-level
/// classification of that frame says.
pub proof fn lemma_step_matches_classify<M, E, F: Fn(RawMessage) -> Option<M>>(
    filter: F,
    f: spec_fn(RawMessage) -> Option<M>,
    frame: RawFrame,
    r: PollStep<M, E>,
)
    requires
        step_post(filter, Ok::<RawFrame, E>(frame), r),
        forall|m: RawMessage, out: Option<M>| call_ensures(filter, (m,), out) ==> out == f(m),
    ensures
        r == match classify(frame, f) {
            Some(e) => PollStep::<M, E>::Yield(Ok(e)),
            None => PollStep::<M, E>::Continue,
        },
{
}

/// How many frames of a raw sequence are `Connect` frames.
pub open spec fn count_connect(frames: Seq<RawFrame>) -> nat
    decreases frames.len(),
{
    if frames.len() == 0 {
        0
    } else {
        (if frames[0] is Connect {
            1nat
        } else {
            0nat
        }) + count_connect(frames.drop_first())
    }
}

/// How many events of a normalized sequence are `BeforeConnect` events.
pub open spec fn count_before_connect<M>(events: Seq<Event<M>>) -> nat
    decreases events.len(),
{
    if events.len() == 0 {
        0
    } else {
        (if events[0] is BeforeConnect {
            1nat
        } else {
            0nat
        }) + count_before_connect(events.drop_first())
    }
}

/// Law: the normalizer emits exactly as many `BeforeConnect` events as the
/// raw sequence holds `Connect` frames — no frame is lost and none is
/// duplicated, whatever the filter does.
pub proof fn lemma_connect_count<M>(frames: Seq<RawFrame>, filter: spec_fn(RawMessage) -> Option<M>)
    ensures
        count_before_connect(normalize(frames, filter)) == count_connect(frames),
    decreases frames.len(),
{
    if frames.len() == 0 {
    } else {
        lemma_connect_count(frames.drop_first(), filter);
        match classify(frames[0], filter) {
            Some(e) => {
                let out = seq![e] + normalize(frames.drop_first(), filter);
                assert(out.drop_first() =~= normalize(frames.drop_first(), filter));
            },
            None => {},
        }
    }
}

/// Law: a raw sequence holding exactly one `Connect` frame is normalized to
/// a sequence holding exactly one `BeforeConnect` event.
pub proof fn lemma_single_connect<M>(frames: Seq<RawFrame>, filter: spec_fn(RawMessage) -> Option<M>)
    requires
        count_connect(frames) == 1,
    ensures
        count_before_connect(normalize(frames, filter)) == 1,
{
    lemma_connect_count(frames, filter);
}

/// Law: the normalized output is unchanged under insertion of an ignorable
/// frame at any position of the raw sequence.
pub proof fn lemma_ignorable_insertion<M>(
    frames: Seq<RawFrame>,
    i: int,
    frame: RawFrame,
    filter: spec_fn(RawMessage) -> Option<M>,
)
    requires
        0 <= i <= frames.len(),
        is_ignorable(frame),
    ensures
        normalize(frames.insert(i, frame), filter) == normalize(frames, filter),
    decreases frames.len(),
{
    let inserted = frames.insert(i, frame);
    if i == 0 {
        assert(inserted[0] == frame);
        assert(inserted.drop_first() =~= frames);
    } else {
        assert(inserted[0] == frames[0]);
        assert(inserted.drop_first() =~= frames.drop_first().insert(i - 1, frame));
        lemma_ignorable_insertion(frames.drop_first(), i - 1, frame, filter);
    }
}

/// Law: a message the filter rejects contributes no event, and the frames
/// after it are still normalized — the stream does not end at the rejected
/// message.
pub proof fn lemma_rejected_message_skipped<M>(
    message: RawMessage,
    rest: Seq<RawFrame>,
    filter: spec_fn(RawMessage) -> Option<M>,
)
    requires
        filter(message) is None,
    ensures
        normalize(seq![RawFrame::Publish { message }] + rest, filter) == normalize(rest, filter),
{
    let frames = seq![RawFrame::Publish { message }] + rest;
    assert(frames[0] == RawFrame::Publish { message });
    assert(frames.drop_first() =~= rest);
}

} // verus!
