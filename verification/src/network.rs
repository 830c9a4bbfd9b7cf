//! The capability: what a gossip engine may ask of the network.

use vstd::prelude::*;
use crate::peer::ConsensusEngineId;
use crate::peer::PeerId;
use crate::request::RequestView;

verus! {

/// Abstraction over a network.
///
/// Each operation but [`Network::event_stream`] hands exactly one request to
/// the transport, with exactly the arguments it was given, and returns without
/// waiting for any peer. No operation fails: what the transport cannot do it
/// drops, or reports later as an event.
///
/// `H` identifies a block and `N` is a block's height.
pub trait Network<H, N> {
    /// A subscription to what happens on the network.
    type EventStream;

    /// The requests handed to the transport through this handle so far, in
    /// the order of the calls that made them.
    spec fn issued(&self) -> Seq<RequestView<H, N>>;

    /// Returns a stream of events representing what happens on the network.
    ///
    /// Each call gives a subscription of its own, which starts at the time of
    /// the call. Subscribing asks nothing of the transport's peers.
    fn event_stream(&mut self) -> (stream: Self::EventStream)
        ensures
            final(self).issued() == old(self).issued(),
    ;

    /// Adjust the reputation of a node.
    fn report_peer(&mut self, peer_id: PeerId, reputation: i32)
        ensures
            final(self).issued() == old(self).issued().push(
                (RequestView::ReportPeer { peer_id: peer_id@, reputation }),
            ),
    ;

    /// Force-disconnect a peer.
    fn disconnect_peer(&mut self, who: PeerId)
        ensures
            final(self).issued() == old(self).issued().push(
                (RequestView::DisconnectPeer { who: who@ }),
            ),
    ;

    /// Send a notification to a peer.
    fn write_notification(&mut self, who: PeerId, engine_id: ConsensusEngineId, message: Vec<u8>)
        ensures
            final(self).issued() == old(self).issued().push(
                (RequestView::WriteNotification { who: who@, engine_id, message: message@ }),
            ),
    ;

    /// Registers a notifications protocol.
    fn register_notifications_protocol(&mut self, engine_id: ConsensusEngineId)
        ensures
            final(self).issued() == old(self).issued().push(
                (RequestView::RegisterNotificationsProtocol { engine_id }),
            ),
    ;

    /// Notify everyone we're connected to that we have the given block.
    fn announce(&mut self, block: H, associated_data: Vec<u8>)
        ensures
            final(self).issued() == old(self).issued().push(
                (RequestView::Announce { block, associated_data: associated_data@ }),
            ),
    ;

    /// Notifies the sync service to try and sync the given block from the given
    /// peers.
    ///
    /// If the given vector of peers is empty then the transport makes a best
    /// effort to fetch the block from any peers it is connected to.
    fn set_sync_fork_request(&mut self, peers: Vec<PeerId>, hash: H, number: N)
        ensures
            final(self).issued() == old(self).issued().push(
                (RequestView::SetSyncForkRequest {
                    peers: crate::request::peer_views(peers@),
                    hash,
                    number,
                }),
            ),
    ;
}

} // verus!
