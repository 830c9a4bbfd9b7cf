//! What a consumer may ask of the network: one request for each operation of
//! the capability that hands work to the transport.

use vstd::prelude::*;
use crate::peer::ConsensusEngineId;
use crate::peer::PeerId;

verus! {

/// One request to the transport, with the arguments it was made with.
///
/// `H` identifies a block and `N` is a block's height. Neither is looked into:
/// both pass through as they were given.
#[derive(Debug, PartialEq, Eq)]
pub enum Request<H, N> {
    /// Adjust the reputation of a node by a signed amount.
    ReportPeer { peer_id: PeerId, reputation: i32 },
    /// End the connection to a node.
    DisconnectPeer { who: PeerId },
    /// Send `message` to a node, as a notification of the protocol `engine_id`.
    WriteNotification { who: PeerId, engine_id: ConsensusEngineId, message: Vec<u8> },
    /// Accept and relay the notifications of the protocol `engine_id`.
    RegisterNotificationsProtocol { engine_id: ConsensusEngineId },
    /// Tell every connected node that `block` is at hand.
    Announce { block: H, associated_data: Vec<u8> },
    /// Fetch the block `hash` at height `number` from `peers`, or from any
    /// connected node where `peers` is empty.
    SetSyncForkRequest { peers: Vec<PeerId>, hash: H, number: N },
}

/// A request as contracts speak of it: identities and payloads as byte strings.
pub enum RequestView<H, N> {
    ReportPeer { peer_id: Seq<u8>, reputation: i32 },
    DisconnectPeer { who: Seq<u8> },
    WriteNotification { who: Seq<u8>, engine_id: ConsensusEngineId, message: Seq<u8> },
    RegisterNotificationsProtocol { engine_id: ConsensusEngineId },
    Announce { block: H, associated_data: Seq<u8> },
    SetSyncForkRequest { peers: Seq<Seq<u8>>, hash: H, number: N },
}

/// A notification on its way to a peer.
#[derive(Debug, PartialEq, Eq)]
pub struct Notification {
    pub who: PeerId,
    pub engine_id: ConsensusEngineId,
    pub message: Vec<u8>,
}

/// A notification as contracts speak of it.
pub struct NotificationView {
    pub who: Seq<u8>,
    pub engine_id: ConsensusEngineId,
    pub message: Seq<u8>,
}

impl View for Notification {
    type V = NotificationView;

    open spec fn view(&self) -> NotificationView {
        NotificationView { who: self.who@, engine_id: self.engine_id, message: self.message@ }
    }
}

/// The notifications of `notifications` as contracts speak of them, in the
/// same order.
pub open spec fn notification_views(notifications: Seq<Notification>) -> Seq<NotificationView> {
    Seq::new(notifications.len(), |at: int| notifications[at]@)
}

/// The identities of `peers`, in the same order.
pub open spec fn peer_views(peers: Seq<PeerId>) -> Seq<Seq<u8>> {
    Seq::new(peers.len(), |at: int| peers[at]@)
}

impl<H, N> View for Request<H, N> {
    type V = RequestView<H, N>;

    open spec fn view(&self) -> RequestView<H, N> {
        match *self {
            Request::ReportPeer { peer_id, reputation } => RequestView::ReportPeer {
                peer_id: peer_id@,
                reputation,
            },
            Request::DisconnectPeer { who } => RequestView::DisconnectPeer { who: who@ },
            Request::WriteNotification { who, engine_id, message } => {
                RequestView::WriteNotification { who: who@, engine_id, message: message@ }
            },
            Request::RegisterNotificationsProtocol { engine_id } => {
                RequestView::RegisterNotificationsProtocol { engine_id }
            },
            Request::Announce { block, associated_data } => RequestView::Announce {
                block,
                associated_data: associated_data@,
            },
            Request::SetSyncForkRequest { peers, hash, number } => {
                RequestView::SetSyncForkRequest { peers: peer_views(peers@), hash, number }
            },
        }
    }
}

/// The requests of `requests` as contracts speak of them, in the same order.
pub open spec fn request_views<H, N>(requests: Seq<Request<H, N>>) -> Seq<RequestView<H, N>> {
    Seq::new(requests.len(), |at: int| requests[at]@)
}

impl<H, N> RequestView<H, N> {
    /// Whether this asks the transport to fetch a block from whichever
    /// connected node it chooses: a sync request that names no peer.
    pub open spec fn asks_any_peer(self) -> bool {
        self matches RequestView::SetSyncForkRequest { peers, .. } && peers.len() == 0
    }

    /// Whether this asks the transport to fetch a block from named peers.
    pub open spec fn asks_named_peers(self) -> bool {
        self matches RequestView::SetSyncForkRequest { peers, .. } && peers.len() > 0
    }
}

impl<H, N> Request<H, N> {
    /// Whether this is a sync request that leaves the choice of peer to the
    /// transport, which is the case exactly when it names none.
    pub fn asks_any_peer(&self) -> (any: bool)
        ensures
            any == self@.asks_any_peer(),
    {
        match self {
            Request::SetSyncForkRequest { peers, .. } => peers.len() == 0,
            _ => false,
        }
    }

    /// Whether this is a sync request that names the peers to fetch from.
    pub fn asks_named_peers(&self) -> (named: bool)
        ensures
            named == self@.asks_named_peers(),
    {
        match self {
            Request::SetSyncForkRequest { peers, .. } => peers.len() > 0,
            _ => false,
        }
    }
}

} // verus!
