//! The decisions of the two long-running loops: what the upstream subscriber
//! does with each item of the stream, and what a client's writer does with
//! each thing that happens to it. The loops themselves wait on the network
//! and carry the actions out.

use vstd::prelude::*;
use crate::backoff::{delay_after_event, Backoff, INITIAL_DELAY_SECS, MAX_DELAY_SECS};
use crate::extract::{extracted, parse_create_transaction};
use crate::record::CreateTransaction;
use crate::upstream::UpstreamFrame;
use crate::wire::{decoded_frame, encode_frame, frame_for};

verus! {

/// What happened to the upstream subscriber.
#[derive(Debug, Clone, PartialEq, Eq)]
pub enum SubscriberEvent {
    /// The attempt failed before the stream was open: the client could not be
    /// built or connected, or the subscription was not accepted.
    ConnectFailed,
    /// The stream yielded a message that carries a transaction update.
    Transaction(UpstreamFrame),
    /// The stream yielded a message of any other kind, or one without
    /// content.
    Other,
    /// The stream yielded an error item.
    StreamError,
    /// The stream ended.
    StreamEnd,
}

impl SubscriberEvent {
    /// The events that the reconnect policy counts as failures. Every message
    /// counts as a success, for it shows that the subscription was accepted
    /// and frames arrive; so does the end of the stream.
    pub open spec fn is_failure(&self) -> bool {
        self is ConnectFailed || self is StreamError
    }
}

/// What the subscriber does next.
#[derive(Debug, Clone, PartialEq, Eq)]
pub enum SubscriberAction {
    /// Publish the event to the hub and go on reading.
    Publish(CreateTransaction),
    /// Go on reading.
    Continue,
    /// Leave the stream, sleep for the given seconds if any are given, and
    /// connect again.
    Reconnect(Option<u64>),
}

/// The upstream subscriber between events: its reconnect policy.
#[derive(Debug, Clone, Copy, PartialEq, Eq)]
pub struct Subscriber {
    backoff: Backoff,
}

impl View for Subscriber {
    type V = nat;

    /// The delay to sleep at the next failure, in seconds.
    closed spec fn view(&self) -> nat {
        self.backoff@
    }
}

impl Subscriber {
    /// The delay lies between the initial delay and the ceiling.
    pub open spec fn well_formed(&self) -> bool {
        INITIAL_DELAY_SECS <= self@ <= MAX_DELAY_SECS
    }

    /// A subscriber that has not connected yet.
    pub fn new() -> (subscriber: Subscriber)
        ensures
            subscriber@ == INITIAL_DELAY_SECS,
            subscriber.well_formed(),
    {
        Subscriber { backoff: Backoff::new() }
    }

    /// The delay to sleep at the next failure, in seconds.
    pub fn delay_secs(&self) -> (delay: u64)
        ensures
            delay == self@,
    {
        self.backoff.delay_secs()
    }

    /// Decides what the subscriber does with what happened to it.
    ///
    /// A transaction update is published if it holds a creation event and
    /// passed over if not; every other message is passed over. A failure
    /// makes the subscriber sleep for the current delay and connect again;
    /// the end of the stream makes it connect again at once. The delay
    /// follows the reconnect policy.
    pub fn on_event(&mut self, event: &SubscriberEvent) -> (action: SubscriberAction)
        ensures
            final(self)@ == delay_after_event(old(self)@, event.is_failure()),
            old(self).well_formed() ==> final(self).well_formed(),
            match event {
                SubscriberEvent::Transaction(frame) => match extracted(frame@) {
                    Some(record) => action matches SubscriberAction::Publish(published)
                        && published@ == record,
                    None => action == SubscriberAction::Continue,
                },
                SubscriberEvent::Other => action == SubscriberAction::Continue,
                SubscriberEvent::ConnectFailed | SubscriberEvent::StreamError => {
                    action matches SubscriberAction::Reconnect(Some(secs)) && secs == old(self)@
                },
                SubscriberEvent::StreamEnd => action == SubscriberAction::Reconnect(None),
            },
    {
        match event {
            SubscriberEvent::Transaction(frame) => {
                self.backoff.succeed();
                match parse_create_transaction(frame) {
                    Some(record) => SubscriberAction::Publish(record),
                    None => SubscriberAction::Continue,
                }
            },
            SubscriberEvent::Other => {
                self.backoff.succeed();
                SubscriberAction::Continue
            },
            SubscriberEvent::ConnectFailed | SubscriberEvent::StreamError => {
                let sleep_secs = self.backoff.fail();
                SubscriberAction::Reconnect(Some(sleep_secs))
            },
            SubscriberEvent::StreamEnd => {
                self.backoff.succeed();
                SubscriberAction::Reconnect(None)
            },
        }
    }
}

/// What happened to a client's writer.
#[derive(Debug, Clone, PartialEq, Eq)]
pub enum WriterEvent {
    /// The hub delivered an event.
    Record(CreateTransaction),
    /// The hub overtook the writer, which missed this many events.
    Lagged(u64),
    /// The hub is closed.
    HubClosed,
    /// Writing to the socket or flushing it failed.
    WriteFailed,
}

/// What the writer does next.
#[derive(Debug, Clone, PartialEq, Eq)]
pub enum WriterAction {
    /// Write these bytes to the socket, flush, and go on.
    Send(Vec<u8>),
    /// Go on with the next event.
    Skip,
    /// End the session.
    Close,
}

/// Decides what a client's writer does with what happened to it.
///
/// An event is sent as its frame, and the session ends if no frame can be
/// made of it; events missed by lag are passed over; a closed hub or a failed
/// write ends the session.
pub fn on_writer_event(event: &WriterEvent) -> (action: WriterAction)
    ensures
        match event {
            WriterEvent::Record(record) => match frame_for(record@) {
                Some(bytes) => action matches WriterAction::Send(frame) && frame@ == bytes
                    && decoded_frame(bytes) == Some((record@, bytes.len())),
                None => action == WriterAction::Close,
            },
            WriterEvent::Lagged(_) => action == WriterAction::Skip,
            WriterEvent::HubClosed => action == WriterAction::Close,
            WriterEvent::WriteFailed => action == WriterAction::Close,
        },
{
    match event {
        WriterEvent::Record(record) => match encode_frame(record) {
            Ok(frame) => WriterAction::Send(frame),
            Err(_) => WriterAction::Close,
        },
        WriterEvent::Lagged(_) => WriterAction::Skip,
        WriterEvent::HubClosed => WriterAction::Close,
        WriterEvent::WriteFailed => WriterAction::Close,
    }
}

} // verus!
