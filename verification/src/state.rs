//! What the network is, as far as a consumer of the capability can tell.
//!
//! Two logs make up the whole of it. One holds the requests that were handed to
//! the transport, in call order, each with the moment at which it was made. The
//! other holds the events that the transport detected, in the order in which
//! it detected them. Which protocols are registered, what a peer's reputation
//! has changed by, which notifications the transport took for delivery, which
//! peers are connected and whom an announcement reaches all follow from the
//! two logs. A subscription is a position in the log of events.

use vstd::prelude::*;
use crate::event::EventView;
use crate::peer::ConsensusEngineId;
use crate::request::NotificationView;
use crate::request::RequestView;

verus! {

/// Whether `issued` holds a request to register the protocol `engine_id`.
pub open spec fn registered<H, N>(
    issued: Seq<RequestView<H, N>>,
    engine_id: ConsensusEngineId,
) -> bool {
    exists|at: int|
        0 <= at < issued.len() && #[trigger] issued[at]
            == (RequestView::<H, N>::RegisterNotificationsProtocol { engine_id })
}

/// By how much `request` changes the reputation of `peer_id`.
pub open spec fn reputation_change<H, N>(request: RequestView<H, N>, peer_id: Seq<u8>) -> int {
    match request {
        RequestView::ReportPeer { peer_id: reported, reputation } => if reported == peer_id {
            reputation as int
        } else {
            0
        },
        _ => 0,
    }
}

/// The sum of the adjustments that `issued` makes to the reputation of
/// `peer_id`.
pub open spec fn reputation<H, N>(issued: Seq<RequestView<H, N>>, peer_id: Seq<u8>) -> int
    decreases issued.len(),
{
    if issued.len() == 0 {
        0
    } else {
        reputation(issued.drop_last(), peer_id) + reputation_change(issued.last(), peer_id)
    }
}

/// The notifications that the transport took for delivery: each notification
/// written for a protocol that was registered by then, in the order written,
/// under the tag it was written with. One written for a protocol that was not
/// registered is dropped.
pub open spec fn outbox<H, N>(issued: Seq<RequestView<H, N>>) -> Seq<NotificationView>
    decreases issued.len(),
{
    if issued.len() == 0 {
        Seq::empty()
    } else {
        let earlier = issued.drop_last();
        match issued.last() {
            RequestView::WriteNotification { who, engine_id, message } => if registered(
                earlier,
                engine_id,
            ) {
                outbox(earlier).push((NotificationView { who, engine_id, message }))
            } else {
                outbox(earlier)
            },
            _ => outbox(earlier),
        }
    }
}

/// Whether the connection to `peer` is open after the events of `history`:
/// the last event that opened or closed it opened it.
pub open spec fn connected(history: Seq<EventView>, peer: Seq<u8>) -> bool
    decreases history.len(),
{
    if history.len() == 0 {
        false
    } else {
        match history.last() {
            EventView::Connected { remote } => remote == peer || connected(
                history.drop_last(),
                peer,
            ),
            EventView::Disconnected { remote } => remote != peer && connected(
                history.drop_last(),
                peer,
            ),
            EventView::Notification { .. } => connected(history.drop_last(), peer),
        }
    }
}

/// Whether each event of `history` could happen when it did: a connection
/// opens only while closed, and closes or carries a notification only while
/// open.
pub open spec fn ordered(history: Seq<EventView>) -> bool {
    forall|at: int|
        0 <= at < history.len() ==> match #[trigger] history[at] {
            EventView::Connected { remote } => !connected(history.take(at), remote),
            EventView::Disconnected { remote } => connected(history.take(at), remote),
            EventView::Notification { remote, .. } => connected(history.take(at), remote),
        }
}

/// A subscription: how far into the log of events its holder has read, and
/// whether the holder still holds it.
pub struct Cursor {
    pub next: nat,
    pub open: bool,
}

/// The network at one moment.
pub struct State<H, N> {
    /// The requests handed to the transport, in call order.
    pub issued: Seq<RequestView<H, N>>,
    /// For each request, how many events had happened when it was made.
    pub asked_at: Seq<nat>,
    /// The events that the transport detected, oldest first.
    pub history: Seq<EventView>,
    /// Every subscription ever made, in the order made.
    pub streams: Seq<Cursor>,
}

impl<H, N> State<H, N> {
    /// The network before anything was asked of it or happened on it.
    pub open spec fn init() -> Self {
        State {
            issued: Seq::empty(),
            asked_at: Seq::empty(),
            history: Seq::empty(),
            streams: Seq::empty(),
        }
    }

    /// Whether the transport lets `event` happen now. A connection opens only
    /// while closed and closes only while open. A notification is relayed only
    /// from a connected peer and only for a registered protocol.
    pub open spec fn accepts(self, event: EventView) -> bool {
        match event {
            EventView::Connected { remote } => !connected(self.history, remote),
            EventView::Disconnected { remote } => connected(self.history, remote),
            EventView::Notification { remote, engine_id, .. } => connected(self.history, remote)
                && registered(self.issued, engine_id),
        }
    }

    /// The network after the transport detected `event`: the event is added to
    /// the log if the transport lets it happen, and nothing changes if not.
    pub open spec fn emit(self, event: EventView) -> Self {
        if self.accepts(event) {
            State { history: self.history.push(event), ..self }
        } else {
            self
        }
    }

    /// The network after `request` was handed to the transport, and before
    /// anything else happened.
    pub open spec fn asked(self, request: RequestView<H, N>) -> Self {
        State {
            issued: self.issued.push(request),
            asked_at: self.asked_at.push(self.history.len()),
            ..self
        }
    }

    /// The network after the transport took `request`. The request is added to
    /// the log of requests. A request to disconnect a peer also closes the
    /// connection to it, if one is open.
    pub open spec fn issue(self, request: RequestView<H, N>) -> Self {
        let asked = self.asked(request);
        match request {
            RequestView::DisconnectPeer { who } => asked.emit(
                (EventView::Disconnected { remote: who }),
            ),
            _ => asked,
        }
    }

    /// The network after one more subscription was made. It starts at the end
    /// of the log of events: nothing that happened before is replayed.
    pub open spec fn subscribe(self) -> Self {
        State {
            streams: self.streams.push((Cursor { next: self.history.len(), open: true })),
            ..self
        }
    }

    /// Whether `stream` is a subscription that its holder still holds.
    pub open spec fn is_open(self, stream: int) -> bool {
        0 <= stream < self.streams.len() && self.streams[stream].open
    }

    /// The events that the holder of `stream` has yet to read, oldest first.
    /// There are none for a subscription that was given up or never made.
    pub open spec fn pending(self, stream: int) -> Seq<EventView> {
        if self.is_open(stream) && self.streams[stream].next <= self.history.len() {
            self.history.subrange(self.streams[stream].next as int, self.history.len() as int)
        } else {
            Seq::empty()
        }
    }

    /// The network after the holder of `stream` read the oldest event it had
    /// yet to read, if there was one.
    pub open spec fn take_next(self, stream: int) -> Self {
        if self.pending(stream).len() > 0 {
            State {
                streams: self.streams.update(
                    stream,
                    (Cursor { next: self.streams[stream].next + 1, open: true }),
                ),
                ..self
            }
        } else {
            self
        }
    }

    /// The network after the holder of `stream` gave it up.
    pub open spec fn close(self, stream: int) -> Self {
        if self.is_open(stream) {
            State {
                streams: self.streams.update(
                    stream,
                    (Cursor { next: self.streams[stream].next, open: false }),
                ),
                ..self
            }
        } else {
            self
        }
    }

    /// The network after the transport detected the events of `events`, one
    /// after the other.
    pub open spec fn emit_all(self, events: Seq<EventView>) -> Self
        decreases events.len(),
    {
        if events.len() == 0 {
            self
        } else {
            self.emit_all(events.drop_last()).emit(events.last())
        }
    }

    /// Whether the transport lets each event of `events` happen in its turn.
    pub open spec fn accepts_all(self, events: Seq<EventView>) -> bool
        decreases events.len(),
    {
        events.len() == 0 || (self.accepts_all(events.drop_last()) && self.emit_all(
            events.drop_last(),
        ).accepts(events.last()))
    }

    /// The network after the holder of `stream` read `count` times.
    pub open spec fn take_many(self, stream: int, count: nat) -> Self
        decreases count,
    {
        if count == 0 {
            self
        } else {
            self.take_many(stream, (count - 1) as nat).take_next(stream)
        }
    }

    /// Whether the protocol `engine_id` is registered.
    pub open spec fn registered(self, engine_id: ConsensusEngineId) -> bool {
        registered(self.issued, engine_id)
    }

    /// By how much the reports made so far have changed the reputation of
    /// `peer_id`.
    pub open spec fn reputation(self, peer_id: Seq<u8>) -> int {
        reputation(self.issued, peer_id)
    }

    /// The notifications taken for delivery so far, oldest first.
    pub open spec fn outbox(self) -> Seq<NotificationView> {
        outbox(self.issued)
    }

    /// Whether the connection to `peer` is open.
    pub open spec fn connected(self, peer: Seq<u8>) -> bool {
        connected(self.history, peer)
    }

    /// Whether the connection to `peer` was open when the request at place
    /// `at` of the log was made.
    pub open spec fn connected_when_asked(self, at: int, peer: Seq<u8>) -> bool {
        &&& 0 <= at < self.asked_at.len()
        &&& self.asked_at[at] <= self.history.len()
        &&& connected(self.history.take(self.asked_at[at] as int), peer)
    }

    /// Whether the request at place `at` of the log is an announcement that
    /// reaches `peer`. An announcement reaches every peer that is connected
    /// when it is made, and no other.
    pub open spec fn announced_to(self, at: int, peer: Seq<u8>) -> bool {
        &&& 0 <= at < self.issued.len()
        &&& self.issued[at] is Announce
        &&& self.connected_when_asked(at, peer)
    }

    /// Whether the request at place `at` of the log is a sync request that the
    /// transport may serve from `peer`: from one of the peers that the request
    /// names or, where it names none, from any peer that is connected when it
    /// is made.
    pub open spec fn may_sync_from(self, at: int, peer: Seq<u8>) -> bool {
        &&& 0 <= at < self.issued.len()
        &&& self.issued[at] matches RequestView::SetSyncForkRequest { peers, .. }
        &&& if peers.len() == 0 {
            self.connected_when_asked(at, peer)
        } else {
            peers.contains(peer)
        }
    }

    /// What holds of the network at every moment: each event could happen when
    /// it did, each request was made at a moment that the log of events has
    /// reached, and no subscription has read further than that log goes.
    pub open spec fn valid(self) -> bool {
        &&& ordered(self.history)
        &&& self.asked_at.len() == self.issued.len()
        &&& forall|at: int|
            0 <= at < self.asked_at.len() ==> #[trigger] self.asked_at[at] <= self.history.len()
        &&& forall|stream: int|
            0 <= stream < self.streams.len() ==> (#[trigger] self.streams[stream]).next
                <= self.history.len()
    }
}

} // verus!
