//! What a consumer of the network may rely on, proved of every state that the
//! network can be in.

use vstd::prelude::*;
use crate::event::EventView;
use crate::peer::ConsensusEngineId;
use crate::request::NotificationView;
use crate::request::RequestView;
use crate::state::State;

verus! {

/// A protocol is registered after a request exactly if it was registered
/// before, or the request registers it. So to register a protocol a second
/// time changes nothing.
pub proof fn registration_adds_one_protocol<H, N>(
    issued: Seq<RequestView<H, N>>,
    request: RequestView<H, N>,
    engine_id: ConsensusEngineId,
)
    ensures
        crate::state::registered(issued.push(request), engine_id)
            <==> crate::state::registered(issued, engine_id) || request
            == (RequestView::<H, N>::RegisterNotificationsProtocol { engine_id }),
{
    let after = issued.push(request);
    let wanted = RequestView::<H, N>::RegisterNotificationsProtocol { engine_id };
    if crate::state::registered(issued, engine_id) {
        let at = choose|at: int| 0 <= at < issued.len() && #[trigger] issued[at] == wanted;
        assert(after[at] == wanted);
    }
    if request == wanted {
        assert(after[issued.len() as int] == wanted);
    }
    if crate::state::registered(after, engine_id) {
        let at = choose|at: int| 0 <= at < after.len() && #[trigger] after[at] == wanted;
        if at < issued.len() {
            assert(issued[at] == wanted);
        }
    }
}

/// A notification written for a registered protocol is taken for delivery to
/// the peer it was written for, with the payload it was written with and under
/// the tag it was written with. One written for a protocol that is not
/// registered is dropped: nothing is delivered, and nothing else changes.
pub proof fn notification_keeps_its_tag<H, N>(
    issued: Seq<RequestView<H, N>>,
    who: Seq<u8>,
    engine_id: ConsensusEngineId,
    message: Seq<u8>,
)
    ensures
        crate::state::registered(issued, engine_id) ==> crate::state::outbox(
            issued.push((RequestView::WriteNotification { who, engine_id, message })),
        ) == crate::state::outbox(issued).push((NotificationView { who, engine_id, message })),
        !crate::state::registered(issued, engine_id) ==> crate::state::outbox(
            issued.push((RequestView::WriteNotification { who, engine_id, message })),
        ) == crate::state::outbox(issued),
{
    let written = RequestView::<H, N>::WriteNotification { who, engine_id, message };
    assert(issued.push(written).drop_last() =~= issued);
}

/// Only a request to write a notification adds to what is delivered.
pub proof fn other_requests_deliver_nothing<H, N>(
    issued: Seq<RequestView<H, N>>,
    request: RequestView<H, N>,
)
    requires
        !(request is WriteNotification),
    ensures
        crate::state::outbox(issued.push(request)) == crate::state::outbox(issued),
{
    assert(issued.push(request).drop_last() =~= issued);
}

/// A protocol stays registered, whatever is asked afterwards.
pub proof fn registration_lasts<H, N>(
    issued: Seq<RequestView<H, N>>,
    later: Seq<RequestView<H, N>>,
    engine_id: ConsensusEngineId,
)
    requires
        crate::state::registered(issued, engine_id),
    ensures
        crate::state::registered(issued + later, engine_id),
{
    let wanted = RequestView::<H, N>::RegisterNotificationsProtocol { engine_id };
    let at = choose|at: int| 0 <= at < issued.len() && #[trigger] issued[at] == wanted;
    assert((issued + later)[at] == wanted);
}

/// Once a protocol is registered, a notification written for it is delivered
/// under its tag, whatever else was asked in between. It is the last to be
/// taken for delivery, and goes to the peer it was written for with the
/// payload it was written with.
pub proof fn registered_protocol_carries_notifications<H, N>(
    issued: Seq<RequestView<H, N>>,
    between: Seq<RequestView<H, N>>,
    who: Seq<u8>,
    engine_id: ConsensusEngineId,
    message: Seq<u8>,
)
    ensures
        ({
            let before = issued.push((RequestView::RegisterNotificationsProtocol { engine_id }))
                + between;
            let after = before.push((RequestView::WriteNotification { who, engine_id, message }));
            crate::state::outbox(after) == crate::state::outbox(before).push(
                (NotificationView { who, engine_id, message }),
            )
        }),
{
    let register = RequestView::<H, N>::RegisterNotificationsProtocol { engine_id };
    registration_adds_one_protocol(issued, register, engine_id);
    registration_lasts(issued.push(register), between, engine_id);
    notification_keeps_its_tag(issued.push(register) + between, who, engine_id, message);
}

/// Whatever is delivered was written: each notification taken for delivery
/// stands in the log of requests, for the same peer, with the same payload and
/// under the same tag, and its protocol was registered before it was written.
pub proof fn delivered_was_written<H, N>(issued: Seq<RequestView<H, N>>, nth: int)
    requires
        0 <= nth < crate::state::outbox(issued).len(),
    ensures
        ({
            let sent = crate::state::outbox(issued)[nth];
            exists|at: int|
                0 <= at < issued.len() && #[trigger] issued[at]
                    == (RequestView::<H, N>::WriteNotification {
                    who: sent.who,
                    engine_id: sent.engine_id,
                    message: sent.message,
                }) && crate::state::registered(issued.take(at), sent.engine_id)
        }),
    decreases issued.len(),
{
    let earlier = issued.drop_last();
    let sent = crate::state::outbox(issued)[nth];
    let wanted = RequestView::<H, N>::WriteNotification {
        who: sent.who,
        engine_id: sent.engine_id,
        message: sent.message,
    };
    if nth < crate::state::outbox(earlier).len() {
        delivered_was_written(earlier, nth);
        let at = choose|at: int|
            0 <= at < earlier.len() && #[trigger] earlier[at] == wanted
                && crate::state::registered(earlier.take(at), sent.engine_id);
        assert(issued[at] == wanted);
        assert(issued.take(at) =~= earlier.take(at));
    } else {
        let at = issued.len() - 1;
        assert(issued[at] == wanted);
        assert(issued.take(at) =~= earlier);
    }
}

/// A report adds its amount to the reputation of the peer it names and leaves
/// the reputation of every other peer as it was. No other request changes a
/// reputation.
pub proof fn reports_accumulate<H, N>(
    issued: Seq<RequestView<H, N>>,
    request: RequestView<H, N>,
    peer_id: Seq<u8>,
)
    ensures
        crate::state::reputation(issued.push(request), peer_id) == crate::state::reputation(
            issued,
            peer_id,
        ) + crate::state::reputation_change(request, peer_id),
        request matches RequestView::ReportPeer { peer_id: reported, reputation }
            ==> crate::state::reputation_change(request, peer_id) == if reported == peer_id {
            reputation as int
        } else {
            0
        },
        !(request is ReportPeer) ==> crate::state::reputation_change(request, peer_id) == 0,
{
    assert(issued.push(request).drop_last() =~= issued);
}

/// The reports that adjust the reputation of `peer_id` by each amount of
/// `amounts` in turn.
pub open spec fn reports<H, N>(peer_id: Seq<u8>, amounts: Seq<i32>) -> Seq<RequestView<H, N>> {
    Seq::new(
        amounts.len(),
        |at: int| RequestView::ReportPeer { peer_id, reputation: amounts[at] },
    )
}

/// The sum of `amounts`.
pub open spec fn total(amounts: Seq<i32>) -> int
    decreases amounts.len(),
{
    if amounts.len() == 0 {
        0
    } else {
        total(amounts.drop_last()) + amounts.last()
    }
}

/// A run of reports about one peer changes its reputation by the sum of their
/// amounts.
pub proof fn reports_sum_up<H, N>(
    issued: Seq<RequestView<H, N>>,
    peer_id: Seq<u8>,
    amounts: Seq<i32>,
)
    ensures
        crate::state::reputation(issued + reports::<H, N>(peer_id, amounts), peer_id)
            == crate::state::reputation(issued, peer_id) + total(amounts),
    decreases amounts.len(),
{
    if amounts.len() == 0 {
        assert(issued + reports::<H, N>(peer_id, amounts) =~= issued);
    } else {
        let before = amounts.drop_last();
        let last = RequestView::<H, N>::ReportPeer { peer_id, reputation: amounts.last() };
        reports_sum_up(issued, peer_id, before);
        assert(issued + reports::<H, N>(peer_id, amounts) =~= (issued + reports::<H, N>(
            peer_id,
            before,
        )).push(last));
        reports_accumulate(issued + reports::<H, N>(peer_id, before), last, peer_id);
    }
}

/// An event opens or closes the connection to the peer it is about, and
/// leaves the connection to every other peer as it was. A notification opens
/// and closes nothing.
pub proof fn event_changes_one_connection<H, N>(
    state: State<H, N>,
    event: EventView,
    peer: Seq<u8>,
)
    ensures
        state.emit(event).connected(peer) == match event {
            EventView::Connected { remote } => remote == peer || state.connected(peer),
            EventView::Disconnected { remote } => remote != peer && state.connected(peer),
            EventView::Notification { .. } => state.connected(peer),
        },
{
    assert(state.history.push(event).drop_last() =~= state.history);
}

/// To disconnect a peer closes the connection to it, whether or not one was
/// open. If one was open, the transport reports that it closed, once; if none
/// was, nothing happens on the network.
pub proof fn disconnect_closes_connection<H, N>(state: State<H, N>, who: Seq<u8>)
    ensures
        !crate::state::connected(
            state.issue((RequestView::DisconnectPeer { who })).history,
            who,
        ),
        crate::state::connected(state.history, who) ==> state.issue(
            (RequestView::DisconnectPeer { who }),
        ).history == state.history.push((EventView::Disconnected { remote: who })),
        !crate::state::connected(state.history, who) ==> state.issue(
            (RequestView::DisconnectPeer { who }),
        ).history == state.history,
        state.issue((RequestView::DisconnectPeer { who })).streams == state.streams,
{
    let closed = EventView::Disconnected { remote: who };
    assert(state.history.push(closed).drop_last() =~= state.history);
}

/// To disconnect a peer twice in a row is to disconnect it once: the second
/// request is recorded, and changes nothing on the network. Between them the
/// two requests make the transport report at most one closed connection.
pub proof fn disconnect_is_idempotent<H, N>(state: State<H, N>, who: Seq<u8>)
    ensures
        ({
            let once = state.issue((RequestView::DisconnectPeer { who }));
            let twice = once.issue((RequestView::DisconnectPeer { who }));
            &&& twice.history == once.history
            &&& twice.streams == once.streams
            &&& twice.issued == once.issued.push((RequestView::DisconnectPeer { who }))
            &&& twice.history.len() <= state.history.len() + 1
        }),
{
    let once = state.issue((RequestView::DisconnectPeer { who }));
    disconnect_closes_connection(state, who);
    disconnect_closes_connection(once, who);
}

/// A disconnection that a request brings about is observed after the request
/// was made, never before: its place in the log of events is the moment of the
/// request.
pub proof fn disconnection_follows_the_request<H, N>(state: State<H, N>, who: Seq<u8>)
    requires
        state.valid(),
        state.connected(who),
    ensures
        ({
            let after = state.issue((RequestView::DisconnectPeer { who }));
            let place = after.asked_at[state.issued.len() as int];
            &&& after.issued[state.issued.len() as int]
                == (RequestView::<H, N>::DisconnectPeer { who })
            &&& place == state.history.len()
            &&& after.history[place as int] == (EventView::Disconnected { remote: who })
        }),
{
}

/// An announcement reaches exactly the peers that are connected when it is
/// made.
pub proof fn announcement_reaches_the_connected<H, N>(
    state: State<H, N>,
    block: H,
    associated_data: Seq<u8>,
    peer: Seq<u8>,
)
    requires
        state.valid(),
    ensures
        state.issue((RequestView::Announce { block, associated_data })).announced_to(
            state.issued.len() as int,
            peer,
        ) <==> state.connected(peer),
{
    assert(state.history.take(state.history.len() as int) =~= state.history);
}

/// A sync request that names peers may be served from those peers and from
/// no other. One that names none leaves the choice to the transport, among
/// the peers that are connected when it is made.
pub proof fn sync_request_names_its_sources<H, N>(
    state: State<H, N>,
    peers: Seq<Seq<u8>>,
    hash: H,
    number: N,
    peer: Seq<u8>,
)
    requires
        state.valid(),
    ensures
        state.issue((RequestView::SetSyncForkRequest { peers, hash, number })).may_sync_from(
            state.issued.len() as int,
            peer,
        ) <==> if peers.len() == 0 {
            state.connected(peer)
        } else {
            peers.contains(peer)
        },
        (RequestView::SetSyncForkRequest { peers, hash, number }).asks_any_peer() <==> peers.len()
            == 0,
        (RequestView::SetSyncForkRequest { peers, hash, number }).asks_named_peers()
            <==> !(RequestView::SetSyncForkRequest { peers, hash, number }).asks_any_peer(),
{
    assert(state.history.take(state.history.len() as int) =~= state.history);
}

/// Whom a request reached is settled when the request is made: whatever is
/// asked and whatever happens afterwards, an announcement has reached whom it
/// reached, and a sync request may be served from whom it might.
pub proof fn what_was_asked_is_settled<H, N>(
    state: State<H, N>,
    at: int,
    peer: Seq<u8>,
    request: RequestView<H, N>,
    event: EventView,
)
    requires
        state.valid(),
        0 <= at < state.issued.len(),
    ensures
        state.issue(request).announced_to(at, peer) == state.announced_to(at, peer),
        state.issue(request).may_sync_from(at, peer) == state.may_sync_from(at, peer),
        state.emit(event).announced_to(at, peer) == state.announced_to(at, peer),
        state.emit(event).may_sync_from(at, peer) == state.may_sync_from(at, peer),
{
    let moment = state.asked_at[at] as int;
    let emitted = state.emit(event);
    assert(emitted.history.take(moment) =~= state.history.take(moment));
    let issued = state.issue(request);
    assert(issued.history.take(moment) =~= state.history.take(moment));
}

/// A request other than one to disconnect a peer makes nothing happen on the
/// network, and no request touches a subscription.
pub proof fn requests_leave_events<H, N>(state: State<H, N>, request: RequestView<H, N>)
    ensures
        state.issue(request).issued == state.issued.push(request),
        state.issue(request).streams == state.streams,
        !(request is DisconnectPeer) ==> state.issue(request).history == state.history,
{
}

/// A new subscription has nothing to read: what happened before it was made
/// is not replayed. It is told apart from every earlier one, and no earlier
/// one is disturbed.
pub proof fn subscription_starts_empty<H, N>(state: State<H, N>, other: int)
    ensures
        state.subscribe().is_open(state.streams.len() as int),
        state.subscribe().pending(state.streams.len() as int) == Seq::<EventView>::empty(),
        other != state.streams.len() ==> state.subscribe().pending(other) == state.pending(other),
        state.subscribe().history == state.history,
        state.subscribe().issued == state.issued,
{
    let made = state.subscribe();
    let stream = state.streams.len() as int;
    assert(made.pending(stream) =~= Seq::<EventView>::empty());
    if other != stream {
        assert(made.pending(other) =~= state.pending(other));
    }
}

/// The log of events after `events` were detected in turn depends on the two
/// logs alone, not on who subscribed.
proof fn emit_all_ignores_streams<H, N>(
    state: State<H, N>,
    other: State<H, N>,
    events: Seq<EventView>,
)
    requires
        state.issued == other.issued,
        state.history == other.history,
    ensures
        state.emit_all(events).issued == state.issued,
        state.emit_all(events).streams == state.streams,
        state.emit_all(events).history == other.emit_all(events).history,
    decreases events.len(),
{
    if events.len() > 0 {
        emit_all_ignores_streams(state, other, events.drop_last());
        emit_all_ignores_streams(other, state, events.drop_last());
    }
}

/// To give up a subscription does not affect any other: what the holder of
/// another has yet to read stays as it was, and whatever happens afterwards
/// reaches the other as if the first were still held.
pub proof fn closing_leaves_others<H, N>(
    state: State<H, N>,
    given_up: int,
    other: int,
    events: Seq<EventView>,
)
    requires
        given_up != other,
    ensures
        state.close(given_up).pending(other) == state.pending(other),
        state.close(given_up).emit_all(events).pending(other) == state.emit_all(events).pending(
            other,
        ),
        state.close(given_up).emit_all(events).history == state.emit_all(events).history,
        state.close(given_up).pending(given_up) == Seq::<EventView>::empty(),
{
    let closed = state.close(given_up);
    emit_all_ignores_streams(closed, state, events);
    emit_all_ignores_streams(state, closed, events);
    assert(closed.pending(other) =~= state.pending(other));
    assert(closed.emit_all(events).pending(other) =~= state.emit_all(events).pending(other));
}

/// To read from a subscription takes the oldest event that its holder had yet
/// to read, and does not affect any other subscription.
pub proof fn reading_takes_the_oldest<H, N>(state: State<H, N>, stream: int, other: int)
    ensures
        state.pending(stream).len() > 0 ==> state.take_next(stream).pending(stream)
            == state.pending(stream).skip(1),
        state.pending(stream).len() == 0 ==> state.take_next(stream) == state,
        other != stream ==> state.take_next(stream).pending(other) == state.pending(other),
        state.take_next(stream).history == state.history,
        state.take_next(stream).issued == state.issued,
{
    let read = state.take_next(stream);
    if state.pending(stream).len() > 0 {
        assert(read.pending(stream) =~= state.pending(stream).skip(1));
    }
    if other != stream {
        assert(read.pending(other) =~= state.pending(other));
    }
}

/// Events that the transport lets happen are added to the log in the order in
/// which they were detected.
proof fn accepted_events_extend_history<H, N>(state: State<H, N>, events: Seq<EventView>)
    requires
        state.accepts_all(events),
    ensures
        state.emit_all(events).history == state.history + events,
        state.emit_all(events).streams == state.streams,
        state.emit_all(events).issued == state.issued,
    decreases events.len(),
{
    if events.len() == 0 {
        assert(state.history + events =~= state.history);
    } else {
        accepted_events_extend_history(state, events.drop_last());
        assert(state.emit_all(events).history =~= state.history + events);
    }
}

/// Events reach a subscription in exactly the order in which the transport
/// detected them: after a run of events that the transport let happen, the
/// holder has yet to read what it had yet to read before, followed by the run.
pub proof fn events_arrive_in_order<H, N>(
    state: State<H, N>,
    stream: int,
    events: Seq<EventView>,
)
    requires
        state.valid(),
        state.is_open(stream),
        state.accepts_all(events),
    ensures
        state.emit_all(events).pending(stream) == state.pending(stream) + events,
{
    accepted_events_extend_history(state, events);
    assert(state.emit_all(events).pending(stream) =~= state.pending(stream) + events);
}

/// The holder of a subscription reads the events in the order of the log:
/// after `count` reads, with at least as many events to read, what is left to
/// read is what was there to read, less its first `count` events. So the read
/// that follows returns the event that stood at place `count`.
pub proof fn reads_follow_the_log<H, N>(state: State<H, N>, stream: int, count: nat)
    requires
        count <= state.pending(stream).len(),
    ensures
        state.take_many(stream, count).pending(stream) == state.pending(stream).skip(count as int),
        state.take_many(stream, count).history == state.history,
        state.take_many(stream, count).issued == state.issued,
    decreases count,
{
    if count == 0 {
        assert(state.pending(stream).skip(0) =~= state.pending(stream));
    } else {
        let before = state.take_many(stream, (count - 1) as nat);
        reads_follow_the_log(state, stream, (count - 1) as nat);
        reading_takes_the_oldest(before, stream, stream);
        assert(state.pending(stream).skip(count - 1).skip(1) =~= state.pending(stream).skip(
            count as int,
        ));
    }
}

/// An event that the transport lets happen keeps the log of events in order.
proof fn accepted_event_keeps_order<H, N>(state: State<H, N>, event: EventView)
    requires
        crate::state::ordered(state.history),
    ensures
        crate::state::ordered(state.emit(event).history),
{
    if state.accepts(event) {
        let after = state.history.push(event);
        assert forall|at: int| 0 <= at < after.len() implies match #[trigger] after[at] {
            EventView::Connected { remote } => !crate::state::connected(after.take(at), remote),
            EventView::Disconnected { remote } => crate::state::connected(
                after.take(at),
                remote,
            ),
            EventView::Notification { remote, .. } => crate::state::connected(
                after.take(at),
                remote,
            ),
        } by {
            if at < state.history.len() {
                assert(after.take(at) =~= state.history.take(at));
                assert(after[at] == state.history[at]);
            } else {
                assert(after.take(at) =~= state.history);
            }
        }
    }
}

/// The network starts in a state in which its invariant holds.
pub proof fn init_is_valid<H, N>()
    ensures
        State::<H, N>::init().valid(),
{
}

/// An event keeps the invariant of the network, whether the transport lets it
/// happen or not.
pub proof fn emit_keeps_valid<H, N>(state: State<H, N>, event: EventView)
    requires
        state.valid(),
    ensures
        state.emit(event).valid(),
{
    accepted_event_keeps_order(state, event);
}

/// A request keeps the invariant of the network.
pub proof fn issue_keeps_valid<H, N>(state: State<H, N>, request: RequestView<H, N>)
    requires
        state.valid(),
    ensures
        state.issue(request).valid(),
{
    if let RequestView::DisconnectPeer { who } = request {
        accepted_event_keeps_order(
            state.asked(request),
            (EventView::Disconnected { remote: who }),
        );
    }
}

/// To subscribe, to read from a subscription and to give one up keep the
/// invariant of the network.
pub proof fn subscriptions_keep_valid<H, N>(state: State<H, N>, stream: int)
    requires
        state.valid(),
    ensures
        state.subscribe().valid(),
        state.take_next(stream).valid(),
        state.close(stream).valid(),
{
}

/// A connection that is open was opened, and has not been closed since.
proof fn open_connection_was_opened(history: Seq<EventView>, peer: Seq<u8>)
    requires
        crate::state::connected(history, peer),
    ensures
        exists|opened: int|
            {
                &&& 0 <= opened < history.len()
                &&& #[trigger] history[opened] == (EventView::Connected { remote: peer })
                &&& forall|between: int|
                    opened < between < history.len() ==> #[trigger] history[between]
                        != (EventView::Disconnected { remote: peer })
            },
    decreases history.len(),
{
    let last = history.len() - 1;
    if history[last] == (EventView::Connected { remote: peer }) {
        assert(history[last] == (EventView::Connected { remote: peer }));
    } else {
        let earlier = history.drop_last();
        open_connection_was_opened(earlier, peer);
        let opened = choose|opened: int|
            {
                &&& 0 <= opened < earlier.len()
                &&& #[trigger] earlier[opened] == (EventView::Connected { remote: peer })
                &&& forall|between: int|
                    opened < between < earlier.len() ==> #[trigger] earlier[between] != (
                    EventView::Disconnected { remote: peer })
            };
        assert(history[opened] == (EventView::Connected { remote: peer }));
        assert forall|between: int|
            opened < between < history.len() implies #[trigger] history[between]
            != (EventView::Disconnected { remote: peer }) by {
            if between < earlier.len() {
                assert(earlier[between] == history[between]);
            }
        }
    }
}

/// For one peer, events are observed in the order in which the transport
/// detected them: a notification from a peer, or the closing of its
/// connection, is never observed before the opening of that connection, nor
/// after its closing.
pub proof fn notification_follows_connection(history: Seq<EventView>, at: int)
    requires
        crate::state::ordered(history),
        0 <= at < history.len(),
        !(history[at] is Connected),
    ensures
        exists|opened: int|
            {
                &&& 0 <= opened < at
                &&& #[trigger] history[opened] == (EventView::Connected {
                    remote: history[at].remote(),
                })
                &&& forall|between: int|
                    opened < between < at ==> #[trigger] history[between] != (
                    EventView::Disconnected { remote: history[at].remote() })
            },
{
    let peer = history[at].remote();
    let before = history.take(at);
    assert(crate::state::connected(before, peer));
    open_connection_was_opened(before, peer);
    let opened = choose|opened: int|
        {
            &&& 0 <= opened < before.len()
            &&& #[trigger] before[opened] == (EventView::Connected { remote: peer })
            &&& forall|between: int|
                opened < between < before.len() ==> #[trigger] before[between] != (
                EventView::Disconnected { remote: peer })
        };
    assert(history[opened] == (EventView::Connected { remote: peer }));
    assert forall|between: int| opened < between < at implies #[trigger] history[between]
        != (EventView::Disconnected { remote: peer }) by {
        assert(before[between] == history[between]);
    }
}

} // verus!


