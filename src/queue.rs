//! The outbound queue: a bounded FIFO of intents with one consumer, held
//! in an embassy_sync channel.
use vstd::prelude::*;
use embassy_sync::blocking_mutex::raw::NoopRawMutex;
use embassy_sync::channel::{Channel, TrySendError};
use crate::message::MqttMessage;

verus! {

/// The number of intents the queue holds.
pub const QUEUE_CAPACITY: usize = 10;

/// A bounded FIFO of intents. A full queue turns a send away unchanged,
/// and the producer waits and sends again: nothing is overwritten.
#[verifier::external_body]
pub struct OutboundQueue {
    channel: Channel<NoopRawMutex, MqttMessage, QUEUE_CAPACITY>,
}

/// The intents that the channel holds, front first.
pub uninterp spec fn queued(q: OutboundQueue) -> Seq<MqttMessage>;

impl View for OutboundQueue {
    type V = Seq<MqttMessage>;

    open spec fn view(&self) -> Seq<MqttMessage> {
        queued(*self)
    }
}

impl OutboundQueue {
    /// Relies on embassy_sync's Channel::new: an empty channel.
    #[verifier::external_body]
    pub fn new() -> (r: OutboundQueue)
        ensures
            queued(r) == Seq::<MqttMessage>::empty(),
    {
        OutboundQueue { channel: Channel::new() }
    }

    /// Relies on embassy_sync's Channel::len: the number of queued intents,
    /// never more than the capacity.
    #[verifier::external_body]
    pub fn len(&self) -> (r: usize)
        ensures
            r == self@.len(),
            r <= QUEUE_CAPACITY,
    {
        self.channel.len()
    }

    /// Whether the queue is full.
    pub fn is_full(&self) -> (r: bool)
        ensures
            r == (self@.len() == QUEUE_CAPACITY),
    {
        self.len() == QUEUE_CAPACITY
    }

    /// Relies on embassy_sync's Channel::try_send: the intent goes to the
    /// back of the queue, or comes back when the queue is full.
    #[verifier::external_body]
    pub fn try_send(&mut self, m: MqttMessage) -> (r: Result<(), MqttMessage>)
        ensures
            old(self)@.len() < QUEUE_CAPACITY ==> r is Ok && final(self)@ == old(self)@.push(m),
            old(self)@.len() >= QUEUE_CAPACITY ==> (r matches Err(back) && back == m) && final(self)@ == old(self)@,
    {
        match self.channel.try_send(m) {
            Ok(()) => Ok(()),
            Err(TrySendError::Full(m)) => Err(m),
        }
    }

    /// Relies on embassy_sync's Channel::try_receive: the intent at the
    /// front, if any.
    #[verifier::external_body]
    pub fn try_receive(&mut self) -> (r: Option<MqttMessage>)
        ensures
            old(self)@.len() == 0 ==> r is None && final(self)@ == old(self)@,
            old(self)@.len() > 0 ==> r == Some(old(self)@[0]) && final(self)@ == old(self)@.drop_first(),
    {
        self.channel.try_receive().ok()
    }

    /// Relies on embassy_sync's Channel::clear: every queued intent is dropped.
    #[verifier::external_body]
    pub fn clear(&mut self)
        ensures
            final(self)@ == Seq::<MqttMessage>::empty(),
    {
        self.channel.clear()
    }
}

} // verus!
