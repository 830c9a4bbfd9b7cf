//! What a consumer may observe of the network.

use vstd::prelude::*;
use crate::peer::ConsensusEngineId;
use crate::peer::PeerId;

verus! {

/// One occurrence on the network, as the transport detected it.
#[derive(Debug, PartialEq, Eq)]
pub enum Event {
    /// A connection to `remote` was opened.
    Connected { remote: PeerId },
    /// The connection to `remote` was closed.
    Disconnected { remote: PeerId },
    /// `remote` sent `message` as a notification of the protocol `engine_id`.
    Notification { remote: PeerId, engine_id: ConsensusEngineId, message: Vec<u8> },
}

/// An event as contracts speak of it: identities and payloads as byte strings.
pub enum EventView {
    Connected { remote: Seq<u8> },
    Disconnected { remote: Seq<u8> },
    Notification { remote: Seq<u8>, engine_id: ConsensusEngineId, message: Seq<u8> },
}

impl View for Event {
    type V = EventView;

    open spec fn view(&self) -> EventView {
        match *self {
            Event::Connected { remote } => EventView::Connected { remote: remote@ },
            Event::Disconnected { remote } => EventView::Disconnected { remote: remote@ },
            Event::Notification { remote, engine_id, message } => EventView::Notification {
                remote: remote@,
                engine_id,
                message: message@,
            },
        }
    }
}

/// The events of `events` as contracts speak of them, in the same order.
pub open spec fn event_views(events: Seq<Event>) -> Seq<EventView> {
    Seq::new(events.len(), |at: int| events[at]@)
}

impl EventView {
    /// The node that the event is about.
    pub open spec fn remote(self) -> Seq<u8> {
        match self {
            EventView::Connected { remote } => remote,
            EventView::Disconnected { remote } => remote,
            EventView::Notification { remote, .. } => remote,
        }
    }
}

impl Event {
    /// The node that the event is about.
    pub fn remote(&self) -> (remote: &PeerId)
        ensures
            remote@ == self@.remote(),
    {
        match self {
            Event::Connected { remote } => remote,
            Event::Disconnected { remote } => remote,
            Event::Notification { remote, .. } => remote,
        }
    }
}

impl Clone for Event {
    fn clone(&self) -> (copy: Event)
        ensures
            copy@ == self@,
    {
        match self {
            Event::Connected { remote } => Event::Connected { remote: remote.clone() },
            Event::Disconnected { remote } => Event::Disconnected { remote: remote.clone() },
            Event::Notification { remote, engine_id, message } => Event::Notification {
                remote: remote.clone(),
                engine_id: *engine_id,
                message: message.clone(),
            },
        }
    }
}

} // verus!
