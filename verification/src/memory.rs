//! A network that lives in the memory of one process.
//!
//! It implements the capability without any peer. It keeps the log of the
//! requests made of it, lets its holder play the transport by saying what
//! happens on the network, and hands each subscription the events that
//! happened since it was made. It stands in for a real network wherever the
//! consumer of the capability, not the network, is what is looked at.
//!
//! Nothing is ever taken out of its two logs: it is made for runs that end.

use vstd::prelude::*;
use crate::event::Event;
use crate::event::EventView;
use crate::network::Network;
use crate::peer::same_engine;
use crate::peer::ConsensusEngineId;
use crate::peer::PeerId;
use crate::request::Notification;
use crate::request::NotificationView;
use crate::request::Request;
use crate::request::RequestView;
use crate::state::Cursor;
use crate::state::State;
use crate::transport::Transport;

verus! {

/// A subscription to the events of a [`MemoryNetwork`].
#[derive(Debug, Clone, Copy, PartialEq, Eq)]
pub struct Subscription {
    id: usize,
}

impl View for Subscription {
    type V = int;

    closed spec fn view(&self) -> int {
        self.id as int
    }
}

/// How far a subscription has read, and whether it is still held.
struct Reader {
    next: usize,
    open: bool,
}

/// A network that lives in the memory of one process.
pub struct MemoryNetwork<H, N> {
    issued: Vec<Request<H, N>>,
    asked_at: Vec<usize>,
    history: Vec<Event>,
    streams: Vec<Reader>,
}

/// The subscriptions of `readers` as contracts speak of them.
spec fn cursors(readers: Seq<Reader>) -> Seq<Cursor> {
    Seq::new(
        readers.len(),
        |at: int| Cursor { next: readers[at].next as nat, open: readers[at].open },
    )
}

/// The moments of `moments` as contracts speak of them.
spec fn moments(moments: Seq<usize>) -> Seq<nat> {
    Seq::new(moments.len(), |at: int| moments[at] as nat)
}

impl<H, N> View for MemoryNetwork<H, N> {
    type V = State<H, N>;

    closed spec fn view(&self) -> State<H, N> {
        State {
            issued: crate::request::request_views(self.issued@),
            asked_at: moments(self.asked_at@),
            history: crate::event::event_views(self.history@),
            streams: cursors(self.streams@),
        }
    }
}

impl<H, N> MemoryNetwork<H, N> {
    /// A network of which nothing was asked yet and on which nothing happened.
    pub fn new() -> (network: Self)
        ensures
            network@ == State::<H, N>::init(),
            network@.valid(),
    {
        let network = MemoryNetwork {
            issued: Vec::new(),
            asked_at: Vec::new(),
            history: Vec::new(),
            streams: Vec::new(),
        };
        proof {
            assert(network@.issued =~= Seq::empty());
            assert(network@.asked_at =~= Seq::empty());
            assert(network@.history =~= Seq::empty());
            assert(network@.streams =~= Seq::empty());
            crate::guarantees::init_is_valid::<H, N>();
        }
        network
    }

    /// The requests made so far, in call order.
    pub fn requests(&self) -> (requests: &Vec<Request<H, N>>)
        ensures
            crate::request::request_views(requests@) == self@.issued,
    {
        &self.issued
    }

    /// The events that happened so far, oldest first.
    pub fn events(&self) -> (events: &Vec<Event>)
        ensures
            crate::event::event_views(events@) == self@.history,
    {
        &self.history
    }

    /// Whether a request among the first `upto` registered the protocol
    /// `engine_id`.
    fn is_registered_within(&self, upto: usize, engine_id: ConsensusEngineId) -> (known: bool)
        requires
            upto <= self@.issued.len(),
        ensures
            known == crate::state::registered(self@.issued.take(upto as int), engine_id),
    {
        let ghost wanted = RequestView::<H, N>::RegisterNotificationsProtocol { engine_id };
        let mut at: usize = 0;
        while at < upto
            invariant
                at <= upto <= self.issued.len(),
                wanted == (RequestView::<H, N>::RegisterNotificationsProtocol { engine_id }),
                forall|k: int| 0 <= k < at ==> self.issued[k]@ != wanted,
            decreases upto - at,
        {
            if let Request::RegisterNotificationsProtocol { engine_id: known } = &self.issued[at] {
                if same_engine(known, &engine_id) {
                    proof {
                        assert(self@.issued.take(upto as int)[at as int] == wanted);
                    }
                    return true;
                }
            }
            at += 1;
        }
        proof {
            let within = self@.issued.take(upto as int);
            assert forall|k: int| 0 <= k < within.len() implies #[trigger] within[k] != wanted by {
                assert(within[k] == self.issued[k]@);
            }
        }
        false
    }

    /// Whether the protocol `engine_id` is registered.
    pub fn is_registered(&self, engine_id: ConsensusEngineId) -> (known: bool)
        ensures
            known == self@.registered(engine_id),
    {
        proof {
            assert(self@.issued.take(self@.issued.len() as int) =~= self@.issued);
        }
        self.is_registered_within(self.issued.len(), engine_id)
    }

    /// Whether the connection to `peer` was open after the first `upto`
    /// events.
    fn is_connected_within(&self, upto: usize, peer: &PeerId) -> (open: bool)
        requires
            upto <= self@.history.len(),
        ensures
            open == crate::state::connected(self@.history.take(upto as int), peer@),
    {
        let ghost history = self@.history.take(upto as int);
        let mut at: usize = upto;
        proof {
            assert(history.take(at as int) =~= history);
        }
        while at > 0
            invariant
                at <= upto <= self.history.len(),
                history == self@.history.take(upto as int),
                crate::state::connected(history, peer@) == crate::state::connected(
                    history.take(at as int),
                    peer@,
                ),
            decreases at,
        {
            at -= 1;
            proof {
                assert(history.take(at + 1).drop_last() =~= history.take(at as int));
                assert(history.take(at + 1).last() == self.history[at as int]@);
            }
            match &self.history[at] {
                Event::Connected { remote } => {
                    if *remote == *peer {
                        return true;
                    }
                },
                Event::Disconnected { remote } => {
                    if *remote == *peer {
                        return false;
                    }
                },
                Event::Notification { .. } => {},
            }
        }
        false
    }

    /// Whether the connection to `peer` is open.
    pub fn is_connected(&self, peer: &PeerId) -> (open: bool)
        ensures
            open == self@.connected(peer@),
    {
        proof {
            assert(self@.history.take(self@.history.len() as int) =~= self@.history);
        }
        self.is_connected_within(self.history.len(), peer)
    }

    /// Whether the connection to `peer` was open when the request at place
    /// `at` of the log was made.
    fn was_connected_when_asked(&self, at: usize, peer: &PeerId) -> (open: bool)
        ensures
            open == self@.connected_when_asked(at as int, peer@),
    {
        if at >= self.asked_at.len() {
            return false;
        }
        let moment = self.asked_at[at];
        if moment > self.history.len() {
            return false;
        }
        self.is_connected_within(moment, peer)
    }

    /// Whether the request at place `at` of the log is an announcement that
    /// reached `peer`. An announcement reaches every peer that is connected
    /// when it is made, and no other.
    pub fn announced_to(&self, at: usize, peer: &PeerId) -> (reached: bool)
        ensures
            reached == self@.announced_to(at as int, peer@),
    {
        if at >= self.issued.len() {
            return false;
        }
        match &self.issued[at] {
            Request::Announce { .. } => self.was_connected_when_asked(at, peer),
            _ => false,
        }
    }

    /// Whether the request at place `at` of the log is a sync request that the
    /// transport may serve from `peer`: from one of the peers that the request
    /// names or, where it names none, from any peer that was connected when it
    /// was made.
    pub fn may_sync_from(&self, at: usize, peer: &PeerId) -> (may: bool)
        ensures
            may == self@.may_sync_from(at as int, peer@),
    {
        if at >= self.issued.len() {
            return false;
        }
        match &self.issued[at] {
            Request::SetSyncForkRequest { peers, .. } => {
                if peers.len() == 0 {
                    self.was_connected_when_asked(at, peer)
                } else {
                    let ghost named = crate::request::peer_views(peers@);
                    proof {
                        assert(self@.issued[at as int] == self.issued[at as int]@);
                    }
                    let mut nth: usize = 0;
                    while nth < peers.len()
                        invariant
                            nth <= peers.len(),
                            named == crate::request::peer_views(peers@),
                            self@.may_sync_from(at as int, peer@) <==> named.contains(peer@),
                            forall|k: int| 0 <= k < nth ==> named[k] != peer@,
                        decreases peers.len() - nth,
                    {
                        if peers[nth] == *peer {
                            proof {
                                assert(named[nth as int] == peer@);
                                assert(named.contains(peer@));
                            }
                            return true;
                        }
                        nth += 1;
                    }
                    false
                }
            },
            _ => false,
        }
    }

    /// By how much the reports made so far have changed the reputation of
    /// `peer_id`. The sum is exact: it is wide enough for as many reports as
    /// memory can hold.
    pub fn reputation(&self, peer_id: &PeerId) -> (sum: i128)
        ensures
            sum == self@.reputation(peer_id@),
    {
        let ghost issued = self@.issued;
        let mut sum: i128 = 0;
        let mut at: usize = 0;
        proof {
            assert(issued.take(0) =~= Seq::empty());
        }
        while at < self.issued.len()
            invariant
                at <= self.issued.len(),
                issued == self@.issued,
                sum == crate::state::reputation(issued.take(at as int), peer_id@),
                -(at * 0x8000_0000) <= sum <= at * 0x8000_0000,
            decreases self.issued.len() - at,
        {
            proof {
                assert(issued.take(at + 1).drop_last() =~= issued.take(at as int));
                assert(issued.take(at + 1).last() == self.issued[at as int]@);
            }
            if let Request::ReportPeer { peer_id: reported, reputation } = &self.issued[at] {
                if *reported == *peer_id {
                    sum = sum + (*reputation as i128);
                }
            }
            at += 1;
        }
        proof {
            assert(issued.take(at as int) =~= issued);
        }
        sum
    }

    /// The notifications taken for delivery so far, oldest first: those
    /// written for a protocol that was registered by then.
    pub fn sent_notifications(&self) -> (sent: Vec<Notification>)
        ensures
            crate::request::notification_views(sent@) == self@.outbox(),
    {
        let ghost issued = self@.issued;
        let mut sent: Vec<Notification> = Vec::new();
        let mut at: usize = 0;
        proof {
            assert(issued.take(0) =~= Seq::empty());
            assert(crate::request::notification_views(sent@) =~= Seq::empty());
        }
        while at < self.issued.len()
            invariant
                at <= self.issued.len(),
                issued == self@.issued,
                crate::request::notification_views(sent@) == crate::state::outbox(
                    issued.take(at as int),
                ),
            decreases self.issued.len() - at,
        {
            let ghost before = crate::request::notification_views(sent@);
            proof {
                assert(issued.take(at + 1).drop_last() =~= issued.take(at as int));
                assert(issued.take(at + 1).last() == self.issued[at as int]@);
            }
            if let Request::WriteNotification { who, engine_id, message } = &self.issued[at] {
                if self.is_registered_within(at, *engine_id) {
                    let taken = Notification {
                        who: who.clone(),
                        engine_id: *engine_id,
                        message: message.clone(),
                    };
                    sent.push(taken);
                    proof {
                        assert(crate::request::notification_views(sent@) =~= before.push(taken@));
                    }
                }
            }
            at += 1;
        }
        proof {
            assert(issued.take(at as int) =~= issued);
        }
        sent
    }

    /// Says that the transport detected `event`, and returns whether the
    /// transport let it happen. A connection opens only while closed and
    /// closes only while open; a notification is relayed only from a connected
    /// peer and only for a registered protocol. An event that may not happen
    /// is dropped and reaches no subscription.
    pub fn emit(&mut self, event: Event) -> (accepted: bool)
        ensures
            accepted == old(self)@.accepts(event@),
            final(self)@ == old(self)@.emit(event@),
            accepted ==> final(self)@.history == old(self)@.history.push(event@),
            !accepted ==> final(self)@ == old(self)@,
            forall|peer: Seq<u8>| #[trigger]
                final(self)@.connected(peer) == match event@ {
                    EventView::Connected { remote } => remote == peer
                        || old(self)@.connected(peer),
                    EventView::Disconnected { remote } => remote != peer
                        && old(self)@.connected(peer),
                    EventView::Notification { .. } => old(self)@.connected(peer),
                },
            old(self)@.valid() ==> final(self)@.valid(),
    {
        proof {
            if self@.valid() {
                crate::guarantees::emit_keeps_valid(self@, event@);
            }
            assert forall|peer: Seq<u8>| #[trigger]
                self@.emit(event@).connected(peer) == match event@ {
                    EventView::Connected { remote } => remote == peer || self@.connected(peer),
                    EventView::Disconnected { remote } => remote != peer
                        && self@.connected(peer),
                    EventView::Notification { .. } => self@.connected(peer),
                } by {
                crate::guarantees::event_changes_one_connection(self@, event@, peer);
            }
        }
        let accepted = match &event {
            Event::Connected { remote } => !self.is_connected(remote),
            Event::Disconnected { remote } => self.is_connected(remote),
            Event::Notification { remote, engine_id, .. } => self.is_connected(remote)
                && self.is_registered(*engine_id),
        };
        if accepted {
            self.history.push(event);
            proof {
                assert(self@.history =~= old(self)@.history.push(event@));
            }
        }
        proof {
            assert(self@ == old(self)@.emit(event@));
        }
        accepted
    }

    /// Reads the oldest event that the holder of `stream` has yet to read.
    /// Returns `None` where there is none: nothing has happened since the last
    /// one was read, or the subscription was given up, or this network never
    /// made it. No other subscription is affected.
    pub fn next_event(&mut self, stream: &Subscription) -> (event: Option<Event>)
        ensures
            final(self)@ == old(self)@.take_next(stream@),
            old(self)@.pending(stream@).len() == 0 ==> event is None,
            old(self)@.pending(stream@).len() > 0 ==> event is Some
                && event->Some_0@ == old(self)@.pending(stream@)[0]
                && final(self)@.pending(stream@) == old(self)@.pending(stream@).skip(1),
            old(self)@.valid() ==> final(self)@.valid(),
    {
        proof {
            if self@.valid() {
                crate::guarantees::subscriptions_keep_valid(self@, stream@);
            }
            crate::guarantees::reading_takes_the_oldest(self@, stream@, stream@);
        }
        if stream.id >= self.streams.len() {
            return None;
        }
        let next = self.streams[stream.id].next;
        if !self.streams[stream.id].open || next >= self.history.len() {
            return None;
        }
        let event = self.history[next].clone();
        self.streams.set(stream.id, Reader { next: next + 1, open: true });
        proof {
            assert(self@.streams =~= old(self)@.take_next(stream@).streams);
        }
        Some(event)
    }

    /// Gives up `stream`. Its holder reads nothing from it any more. No other
    /// subscription is affected.
    pub fn close(&mut self, stream: Subscription)
        ensures
            final(self)@ == old(self)@.close(stream@),
            final(self)@.pending(stream@) == Seq::<EventView>::empty(),
            old(self)@.valid() ==> final(self)@.valid(),
    {
        proof {
            if self@.valid() {
                crate::guarantees::subscriptions_keep_valid(self@, stream@);
            }
        }
        if stream.id < self.streams.len() && self.streams[stream.id].open {
            let next = self.streams[stream.id].next;
            self.streams.set(stream.id, Reader { next, open: false });
            proof {
                assert(self@.streams =~= old(self)@.close(stream@).streams);
            }
        }
    }
}

impl<H, N> Transport<H, N> for MemoryNetwork<H, N> {
    type EventStream = Subscription;

    open spec fn keeps_log(&self) -> bool {
        true
    }

    open spec fn taken(&self) -> Seq<RequestView<H, N>> {
        self@.issued
    }

    open spec fn opened(&self, after: &Self, stream: Subscription) -> bool {
        after@ == self@.subscribe() && stream@ == self@.streams.len()
    }

    /// The new subscription has nothing to read: what happened before it was
    /// made is not replayed.
    fn subscribe(&mut self) -> (stream: Subscription)
        ensures
            final(self)@ == old(self)@.subscribe(),
            stream@ == old(self)@.streams.len(),
            final(self)@.is_open(stream@),
            final(self)@.pending(stream@) == Seq::<EventView>::empty(),
            old(self)@.valid() ==> final(self)@.valid(),
    {
        proof {
            if self@.valid() {
                crate::guarantees::subscriptions_keep_valid(self@, 0);
            }
            crate::guarantees::subscription_starts_empty(self@, 0);
        }
        let stream = Subscription { id: self.streams.len() };
        self.streams.push(Reader { next: self.history.len(), open: true });
        proof {
            assert(self@.streams =~= old(self)@.subscribe().streams);
        }
        stream
    }

    /// Adds `request` to the log of requests and, if it asks to disconnect a
    /// peer, closes the connection to that peer.
    fn perform(&mut self, request: Request<H, N>)
        ensures
            final(self)@ == old(self)@.issue(request@),
            old(self)@.valid() ==> final(self)@.valid(),
    {
        proof {
            if self@.valid() {
                crate::guarantees::issue_keeps_valid(self@, request@);
            }
        }
        let closing = match &request {
            Request::DisconnectPeer { who } => Some(who.clone()),
            _ => None,
        };
        self.asked_at.push(self.history.len());
        self.issued.push(request);
        proof {
            assert(self@.issued =~= old(self)@.issued.push(request@));
            assert(self@.asked_at =~= old(self)@.asked_at.push(old(self)@.history.len()));
            assert(self@ == old(self)@.asked(request@));
        }
        if let Some(remote) = closing {
            self.emit(Event::Disconnected { remote });
        }
    }
}

impl<H, N> Network<H, N> for MemoryNetwork<H, N> {
    type EventStream = Subscription;

    open spec fn issued(&self) -> Seq<RequestView<H, N>> {
        self@.issued
    }

    /// The new subscription has nothing to read: what happened before it was
    /// made is not replayed.
    fn event_stream(&mut self) -> (stream: Subscription)
        ensures
            final(self)@ == old(self)@.subscribe(),
            stream@ == old(self)@.streams.len(),
            final(self)@.is_open(stream@),
            final(self)@.pending(stream@) == Seq::<EventView>::empty(),
            old(self)@.valid() ==> final(self)@.valid(),
    {
        self.subscribe()
    }

    /// The reputation of `peer_id` changes by `reputation`, and that of no
    /// other peer changes.
    fn report_peer(&mut self, peer_id: PeerId, reputation: i32)
        ensures
            final(self)@ == old(self)@.issue(
                (RequestView::ReportPeer { peer_id: peer_id@, reputation }),
            ),
            final(self)@.reputation(peer_id@) == old(self)@.reputation(peer_id@) + reputation,
            old(self)@.valid() ==> final(self)@.valid(),
    {
        proof {
            crate::guarantees::reports_accumulate(
                self@.issued,
                (RequestView::ReportPeer { peer_id: peer_id@, reputation }),
                peer_id@,
            );
        }
        self.perform(Request::ReportPeer { peer_id, reputation });
    }

    /// The connection to `who` is closed afterwards. If it was open, every
    /// subscription is told so, once; if it was not, nothing happens.
    fn disconnect_peer(&mut self, who: PeerId)
        ensures
            final(self)@ == old(self)@.issue((RequestView::DisconnectPeer { who: who@ })),
            !final(self)@.connected(who@),
            final(self)@.history == if old(self)@.connected(who@) {
                old(self)@.history.push((EventView::Disconnected { remote: who@ }))
            } else {
                old(self)@.history
            },
            old(self)@.valid() ==> final(self)@.valid(),
    {
        proof {
            crate::guarantees::disconnect_closes_connection(self@, who@);
        }
        self.perform(Request::DisconnectPeer { who });
    }

    /// The notification is taken for delivery, under the tag `engine_id`, if
    /// that protocol is registered. If it is not, the notification is dropped.
    fn write_notification(&mut self, who: PeerId, engine_id: ConsensusEngineId, message: Vec<u8>)
        ensures
            final(self)@ == old(self)@.issue(
                (RequestView::WriteNotification { who: who@, engine_id, message: message@ }),
            ),
            final(self)@.outbox() == if old(self)@.registered(engine_id) {
                old(self)@.outbox().push(
                    (NotificationView { who: who@, engine_id, message: message@ }),
                )
            } else {
                old(self)@.outbox()
            },
            old(self)@.valid() ==> final(self)@.valid(),
    {
        proof {
            crate::guarantees::notification_keeps_its_tag(self@.issued, who@, engine_id, message@);
        }
        self.perform(Request::WriteNotification { who, engine_id, message });
    }

    /// The protocol `engine_id` is registered afterwards, and so is every
    /// protocol that was registered before, and no other. To register a
    /// protocol a second time changes nothing.
    fn register_notifications_protocol(&mut self, engine_id: ConsensusEngineId)
        ensures
            final(self)@ == old(self)@.issue(
                (RequestView::RegisterNotificationsProtocol { engine_id }),
            ),
            forall|other: ConsensusEngineId| #[trigger]
                final(self)@.registered(other) <==> old(self)@.registered(other) || other
                    == engine_id,
            final(self)@.outbox() == old(self)@.outbox(),
            old(self)@.valid() ==> final(self)@.valid(),
    {
        proof {
            assert forall|other: ConsensusEngineId| #[trigger]
                crate::state::registered(
                    self@.issued.push((RequestView::RegisterNotificationsProtocol { engine_id })),
                    other,
                ) <==> self@.registered(other) || other == engine_id by {
                crate::guarantees::registration_adds_one_protocol(
                    self@.issued,
                    (RequestView::RegisterNotificationsProtocol { engine_id }),
                    other,
                );
            }
            crate::guarantees::other_requests_deliver_nothing(
                self@.issued,
                (RequestView::RegisterNotificationsProtocol { engine_id }),
            );
        }
        self.perform(Request::RegisterNotificationsProtocol { engine_id });
    }

    /// The announcement reaches every peer that is connected now, and no
    /// other. Nothing happens on the network.
    fn announce(&mut self, block: H, associated_data: Vec<u8>)
        ensures
            final(self)@ == old(self)@.issue(
                (RequestView::Announce { block, associated_data: associated_data@ }),
            ),
            final(self)@.history == old(self)@.history,
            old(self)@.valid() ==> forall|peer: Seq<u8>| #[trigger]
                final(self)@.announced_to(old(self)@.issued.len() as int, peer)
                    <==> old(self)@.connected(peer),
            old(self)@.valid() ==> final(self)@.valid(),
    {
        proof {
            if self@.valid() {
                assert forall|peer: Seq<u8>| #[trigger]
                    self@.issue(
                        (RequestView::Announce { block, associated_data: associated_data@ }),
                    ).announced_to(self@.issued.len() as int, peer)
                        <==> self@.connected(peer) by {
                    crate::guarantees::announcement_reaches_the_connected(
                        self@,
                        block,
                        associated_data@,
                        peer,
                    );
                }
            }
        }
        self.perform(Request::Announce { block, associated_data });
    }

    /// The request may be served from the peers it names and from no other.
    /// If it names none, it may be served from any peer that is connected now.
    /// Nothing happens on the network.
    fn set_sync_fork_request(&mut self, peers: Vec<PeerId>, hash: H, number: N)
        ensures
            final(self)@ == old(self)@.issue(
                (RequestView::SetSyncForkRequest {
                    peers: crate::request::peer_views(peers@),
                    hash,
                    number,
                }),
            ),
            final(self)@.history == old(self)@.history,
            old(self)@.valid() ==> forall|peer: Seq<u8>| #[trigger]
                final(self)@.may_sync_from(old(self)@.issued.len() as int, peer)
                    <==> if peers@.len() == 0 {
                    old(self)@.connected(peer)
                } else {
                    crate::request::peer_views(peers@).contains(peer)
                },
            old(self)@.valid() ==> final(self)@.valid(),
    {
        proof {
            let named = crate::request::peer_views(peers@);
            if self@.valid() {
                assert forall|peer: Seq<u8>| #[trigger]
                    self@.issue(
                        (RequestView::SetSyncForkRequest { peers: named, hash, number }),
                    ).may_sync_from(self@.issued.len() as int, peer) <==> if peers@.len() == 0 {
                        self@.connected(peer)
                    } else {
                        named.contains(peer)
                    } by {
                    crate::guarantees::sync_request_names_its_sources(
                        self@,
                        named,
                        hash,
                        number,
                        peer,
                    );
                }
            }
        }
        self.perform(Request::SetSyncForkRequest { peers, hash, number });
    }
}

} // verus!
