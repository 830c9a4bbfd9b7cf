use network_gossip::adapter::NetworkAdapter;
use network_gossip::event::Event;
use network_gossip::memory::MemoryNetwork;
use network_gossip::network::Network;
use network_gossip::peer::{ConsensusEngineId, PeerId};
use network_gossip::request::Request;

const GRANDPA: ConsensusEngineId = *b"FRNK";
const BABE: ConsensusEngineId = *b"BABE";

type Net = MemoryNetwork<u64, u32>;

fn peer(name: &str) -> PeerId {
    PeerId::from_bytes(name.as_bytes().to_vec())
}

fn connected(name: &str) -> Event {
    Event::Connected { remote: peer(name) }
}

fn disconnected(name: &str) -> Event {
    Event::Disconnected { remote: peer(name) }
}

fn notification(name: &str, engine_id: ConsensusEngineId, message: &[u8]) -> Event {
    Event::Notification { remote: peer(name), engine_id, message: message.to_vec() }
}

#[test]
fn events_are_seen_in_the_order_of_the_script() {
    let mut network = Net::new();
    network.register_notifications_protocol(GRANDPA);
    let stream = network.event_stream();

    assert!(network.emit(connected("alice")));
    assert!(network.emit(notification("alice", GRANDPA, &[1, 2, 3])));
    assert!(network.emit(disconnected("alice")));

    assert_eq!(network.next_event(&stream), Some(connected("alice")));
    assert_eq!(network.next_event(&stream), Some(notification("alice", GRANDPA, &[1, 2, 3])));
    assert_eq!(network.next_event(&stream), Some(disconnected("alice")));
    assert_eq!(network.next_event(&stream), None);
}

#[test]
fn events_can_be_read_as_they_happen() {
    let mut network = Net::new();
    network.register_notifications_protocol(GRANDPA);
    let stream = network.event_stream();

    assert_eq!(network.next_event(&stream), None);
    network.emit(connected("alice"));
    assert_eq!(network.next_event(&stream), Some(connected("alice")));
    assert_eq!(network.next_event(&stream), None);
    network.emit(notification("alice", GRANDPA, &[7]));
    network.emit(notification("alice", GRANDPA, &[8]));
    assert_eq!(network.next_event(&stream), Some(notification("alice", GRANDPA, &[7])));
    assert_eq!(network.next_event(&stream), Some(notification("alice", GRANDPA, &[8])));
    assert_eq!(network.next_event(&stream), None);
}

#[test]
fn subscription_starts_at_the_time_it_is_made() {
    let mut network = Net::new();
    network.register_notifications_protocol(GRANDPA);
    network.emit(connected("alice"));
    network.emit(notification("alice", GRANDPA, &[1]));

    let late = network.event_stream();
    assert_eq!(network.next_event(&late), None);

    network.emit(notification("alice", GRANDPA, &[2]));
    assert_eq!(network.next_event(&late), Some(notification("alice", GRANDPA, &[2])));
    assert_eq!(network.next_event(&late), None);
    assert_eq!(network.events().len(), 3);
}

#[test]
fn each_subscription_reads_on_its_own() {
    let mut network = Net::new();
    let first = network.event_stream();
    let second = network.event_stream();
    assert_ne!(first, second);

    network.emit(connected("alice"));
    network.emit(connected("bob"));

    assert_eq!(network.next_event(&first), Some(connected("alice")));
    assert_eq!(network.next_event(&first), Some(connected("bob")));
    assert_eq!(network.next_event(&first), None);
    assert_eq!(network.next_event(&second), Some(connected("alice")));
    assert_eq!(network.next_event(&second), Some(connected("bob")));
    assert_eq!(network.next_event(&second), None);
}

#[test]
fn giving_up_a_subscription_leaves_the_other() {
    let mut network = Net::new();
    network.register_notifications_protocol(GRANDPA);
    let dropped = network.event_stream();
    let kept = network.event_stream();

    network.emit(connected("alice"));
    network.close(dropped);
    network.emit(notification("alice", GRANDPA, &[4]));
    network.emit(disconnected("alice"));

    assert_eq!(network.next_event(&dropped), None);
    assert_eq!(network.next_event(&kept), Some(connected("alice")));
    assert_eq!(network.next_event(&kept), Some(notification("alice", GRANDPA, &[4])));
    assert_eq!(network.next_event(&kept), Some(disconnected("alice")));
    assert_eq!(network.next_event(&kept), None);
}

#[test]
fn giving_up_a_subscription_twice_is_harmless() {
    let mut network = Net::new();
    let dropped = network.event_stream();
    let kept = network.event_stream();
    network.emit(connected("alice"));
    network.close(dropped);
    network.close(dropped);
    assert_eq!(network.next_event(&dropped), None);
    assert_eq!(network.next_event(&kept), Some(connected("alice")));
}

#[test]
fn subscription_that_a_network_never_made_reads_nothing() {
    let mut one = Net::new();
    let mut other = Net::new();
    let _first = one.event_stream();
    let second = one.event_stream();
    other.emit(connected("alice"));

    assert_eq!(other.next_event(&second), None);
    other.close(second);
    assert_eq!(other.events().len(), 1);
    assert_eq!(one.next_event(&second), None);
}

#[test]
fn disconnecting_twice_reports_one_closed_connection() {
    let mut network = Net::new();
    let stream = network.event_stream();
    network.emit(connected("alice"));
    assert!(network.is_connected(&peer("alice")));

    network.disconnect_peer(peer("alice"));
    assert!(!network.is_connected(&peer("alice")));
    network.disconnect_peer(peer("alice"));
    assert!(!network.is_connected(&peer("alice")));

    assert_eq!(network.next_event(&stream), Some(connected("alice")));
    assert_eq!(network.next_event(&stream), Some(disconnected("alice")));
    assert_eq!(network.next_event(&stream), None);
    assert_eq!(network.events(), &vec![connected("alice"), disconnected("alice")]);
    assert_eq!(
        network.requests(),
        &vec![
            Request::DisconnectPeer { who: peer("alice") },
            Request::DisconnectPeer { who: peer("alice") },
        ]
    );
}

#[test]
fn disconnecting_a_peer_that_is_not_connected_does_nothing() {
    let mut network = Net::new();
    let stream = network.event_stream();
    network.emit(connected("bob"));

    network.disconnect_peer(peer("alice"));

    assert!(network.is_connected(&peer("bob")));
    assert_eq!(network.next_event(&stream), Some(connected("bob")));
    assert_eq!(network.next_event(&stream), None);
    assert_eq!(network.requests().len(), 1);
}

#[test]
fn disconnecting_one_peer_leaves_the_others_connected() {
    let mut network = Net::new();
    network.emit(connected("alice"));
    network.emit(connected("bob"));
    network.disconnect_peer(peer("alice"));
    assert!(!network.is_connected(&peer("alice")));
    assert!(network.is_connected(&peer("bob")));
    assert!(!network.is_connected(&peer("carol")));
}

#[test]
fn peer_can_connect_again_after_it_was_disconnected() {
    let mut network = Net::new();
    assert!(network.emit(connected("alice")));
    network.disconnect_peer(peer("alice"));
    assert!(network.emit(connected("alice")));
    assert!(network.is_connected(&peer("alice")));
    assert_eq!(
        network.events(),
        &vec![connected("alice"), disconnected("alice"), connected("alice")]
    );
}

#[test]
fn connection_opens_once_and_closes_once() {
    let mut network = Net::new();
    assert!(!network.emit(disconnected("alice")));
    assert!(network.emit(connected("alice")));
    assert!(!network.emit(connected("alice")));
    assert!(network.emit(disconnected("alice")));
    assert!(!network.emit(disconnected("alice")));
    assert_eq!(network.events(), &vec![connected("alice"), disconnected("alice")]);
}

#[test]
fn notification_is_never_seen_before_the_connection() {
    let mut network = Net::new();
    network.register_notifications_protocol(GRANDPA);
    let stream = network.event_stream();

    assert!(!network.emit(notification("alice", GRANDPA, &[1])));
    assert_eq!(network.next_event(&stream), None);

    assert!(network.emit(connected("alice")));
    assert!(network.emit(notification("alice", GRANDPA, &[2])));
    assert!(network.emit(disconnected("alice")));
    assert!(!network.emit(notification("alice", GRANDPA, &[3])));

    assert_eq!(network.next_event(&stream), Some(connected("alice")));
    assert_eq!(network.next_event(&stream), Some(notification("alice", GRANDPA, &[2])));
    assert_eq!(network.next_event(&stream), Some(disconnected("alice")));
    assert_eq!(network.next_event(&stream), None);
}

#[test]
fn notification_of_an_unregistered_protocol_is_not_relayed() {
    let mut network = Net::new();
    network.register_notifications_protocol(GRANDPA);
    let stream = network.event_stream();
    network.emit(connected("alice"));

    assert!(!network.emit(notification("alice", BABE, &[1])));
    assert!(network.emit(notification("alice", GRANDPA, &[2])));
    network.register_notifications_protocol(BABE);
    assert!(network.emit(notification("alice", BABE, &[3])));

    assert_eq!(network.next_event(&stream), Some(connected("alice")));
    assert_eq!(network.next_event(&stream), Some(notification("alice", GRANDPA, &[2])));
    assert_eq!(network.next_event(&stream), Some(notification("alice", BABE, &[3])));
    assert_eq!(network.next_event(&stream), None);
}

#[test]
fn events_of_different_peers_keep_the_order_of_each() {
    let mut network = Net::new();
    network.register_notifications_protocol(GRANDPA);
    let stream = network.event_stream();
    network.emit(connected("alice"));
    network.emit(connected("bob"));
    network.emit(notification("bob", GRANDPA, &[1]));
    network.emit(notification("alice", GRANDPA, &[2]));
    network.emit(disconnected("bob"));
    network.emit(notification("alice", GRANDPA, &[3]));

    let mut of_alice = Vec::new();
    let mut of_bob = Vec::new();
    while let Some(event) = network.next_event(&stream) {
        if event.remote() == &peer("alice") {
            of_alice.push(event);
        } else {
            of_bob.push(event);
        }
    }
    assert_eq!(
        of_alice,
        vec![
            connected("alice"),
            notification("alice", GRANDPA, &[2]),
            notification("alice", GRANDPA, &[3]),
        ]
    );
    assert_eq!(
        of_bob,
        vec![connected("bob"), notification("bob", GRANDPA, &[1]), disconnected("bob")]
    );
}

#[test]
fn event_names_the_peer_it_is_about() {
    assert_eq!(connected("alice").remote(), &peer("alice"));
    assert_eq!(disconnected("bob").remote(), &peer("bob"));
    assert_eq!(notification("carol", GRANDPA, &[]).remote(), &peer("carol"));
    assert_eq!(notification("carol", GRANDPA, &[1]).clone(), notification("carol", GRANDPA, &[1]));
}

#[test]
fn requests_and_events_are_logged_apart() {
    let mut network = Net::new();
    network.emit(connected("alice"));
    network.report_peer(peer("alice"), -1);
    network.announce(7, vec![1]);
    network.set_sync_fork_request(vec![], 7, 3);
    assert_eq!(network.events(), &vec![connected("alice")]);
    assert_eq!(network.requests().len(), 3);
    assert!(network.is_connected(&peer("alice")));
}

#[test]
fn subscription_made_through_an_adapter_is_one_of_its_transport() {
    let mut adapter: NetworkAdapter<u64, u32, Net> = NetworkAdapter::new(Net::new());
    adapter.register_notifications_protocol(GRANDPA);
    let stream = adapter.event_stream();
    let mut network = adapter.into_transport();

    network.emit(connected("alice"));
    network.emit(notification("alice", GRANDPA, &[1]));
    assert_eq!(network.next_event(&stream), Some(connected("alice")));
    assert_eq!(network.next_event(&stream), Some(notification("alice", GRANDPA, &[1])));
    assert_eq!(network.next_event(&stream), None);
}

#[test]
fn announcement_reaches_the_peers_connected_when_it_is_made() {
    let mut network = Net::new();
    network.emit(connected("alice"));
    network.emit(connected("bob"));
    network.disconnect_peer(peer("bob"));
    network.announce(7, vec![1]);
    network.emit(connected("carol"));
    network.emit(disconnected("alice"));

    assert!(network.announced_to(1, &peer("alice")));
    assert!(!network.announced_to(1, &peer("bob")));
    assert!(!network.announced_to(1, &peer("carol")));
    assert!(!network.announced_to(1, &peer("dave")));

    network.announce(8, vec![2]);
    assert!(!network.announced_to(2, &peer("alice")));
    assert!(!network.announced_to(2, &peer("bob")));
    assert!(network.announced_to(2, &peer("carol")));
    assert!(network.announced_to(1, &peer("alice")));
}

#[test]
fn announcement_to_an_empty_network_reaches_nobody() {
    let mut network = Net::new();
    network.announce(7, vec![1]);
    network.emit(connected("alice"));
    assert!(!network.announced_to(0, &peer("alice")));
    assert_eq!(network.requests(), &vec![Request::Announce { block: 7, associated_data: vec![1] }]);
}

#[test]
fn only_an_announcement_is_announced() {
    let mut network = Net::new();
    network.emit(connected("alice"));
    network.report_peer(peer("alice"), 1);
    network.set_sync_fork_request(Vec::new(), 7, 3);
    network.announce(7, Vec::new());

    assert!(!network.announced_to(0, &peer("alice")));
    assert!(!network.announced_to(1, &peer("alice")));
    assert!(network.announced_to(2, &peer("alice")));
    assert!(!network.announced_to(3, &peer("alice")));
    assert!(!network.announced_to(usize::MAX, &peer("alice")));
}

#[test]
fn sync_request_without_peers_may_use_any_connected_peer() {
    let mut network = Net::new();
    network.emit(connected("alice"));
    network.emit(connected("bob"));
    network.emit(disconnected("bob"));
    network.set_sync_fork_request(Vec::new(), 7, 3);
    network.emit(connected("carol"));

    assert!(network.requests()[0].asks_any_peer());
    assert!(network.may_sync_from(0, &peer("alice")));
    assert!(!network.may_sync_from(0, &peer("bob")));
    assert!(!network.may_sync_from(0, &peer("carol")));
}

#[test]
fn sync_request_with_peers_uses_them_only() {
    let mut network = Net::new();
    network.emit(connected("alice"));
    network.set_sync_fork_request(vec![peer("bob"), peer("carol")], 7, 3);

    assert!(network.requests()[0].asks_named_peers());
    assert!(!network.may_sync_from(0, &peer("alice")));
    assert!(network.may_sync_from(0, &peer("bob")));
    assert!(network.may_sync_from(0, &peer("carol")));
    assert!(!network.may_sync_from(0, &peer("dave")));
    assert!(!network.may_sync_from(1, &peer("bob")));
}

#[test]
fn only_a_sync_request_is_served() {
    let mut network = Net::new();
    network.emit(connected("alice"));
    network.announce(7, Vec::new());
    network.report_peer(peer("alice"), 1);
    assert!(!network.may_sync_from(0, &peer("alice")));
    assert!(!network.may_sync_from(1, &peer("alice")));
    assert!(!network.may_sync_from(2, &peer("alice")));
}
