//! The binding of the capability to a transport.

use vstd::prelude::*;
use crate::network::Network;
use crate::peer::ConsensusEngineId;
use crate::peer::PeerId;
use crate::request::Request;
use crate::request::RequestView;
use crate::transport::Transport;

verus! {

/// Implements the capability on top of a transport, and adds nothing of its
/// own: each operation makes one request out of its arguments and hands it to
/// the transport. At run time it holds the handle to the transport and nothing
/// else, and is as cheap to copy as that handle is.
pub struct NetworkAdapter<H, N, T> {
    transport: T,
    /// What was handed to the transport so far. It exists in proofs only.
    issued: Ghost<Seq<RequestView<H, N>>>,
}

impl<H, N, T: Transport<H, N>> NetworkAdapter<H, N, T> {
    /// Binds the capability to `transport`. Nothing was asked through the new
    /// handle yet.
    pub fn new(transport: T) -> (adapter: Self)
        ensures
            adapter.issued() == Seq::<RequestView<H, N>>::empty(),
            *adapter.transport() == transport,
    {
        NetworkAdapter { transport, issued: Ghost(Seq::empty()) }
    }

    /// The transport that this handle speaks to.
    pub closed spec fn spec_transport(&self) -> &T {
        &self.transport
    }

    /// The transport that this handle speaks to.
    #[verifier::when_used_as_spec(spec_transport)]
    pub fn transport(&self) -> (transport: &T)
        ensures
            transport == self.spec_transport(),
    {
        &self.transport
    }

    /// Gives up the handle and returns the transport it spoke to.
    pub fn into_transport(self) -> (transport: T)
        ensures
            transport == *self.transport(),
    {
        self.transport
    }

    /// Hands `request` to the transport.
    fn hand_over(&mut self, request: Request<H, N>)
        ensures
            final(self).issued() == old(self).issued().push(request@),
            old(self).transport().keeps_log() ==> final(self).transport().keeps_log()
                && final(self).transport().taken() == old(self).transport().taken().push(request@),
    {
        proof {
            self.issued@ = self.issued@.push(request@);
        }
        self.transport.perform(request);
    }
}

/// Each operation hands its request to the transport, once and as it is. Of a
/// transport that keeps a log of what it took, the log says so: it grows by
/// that request and by nothing else.
impl<H, N, T: Transport<H, N>> Network<H, N> for NetworkAdapter<H, N, T> {
    type EventStream = T::EventStream;

    closed spec fn issued(&self) -> Seq<RequestView<H, N>> {
        self.issued@
    }

    /// The subscription is the one that the transport opened, and the
    /// transport has changed by that opening and by nothing else.
    fn event_stream(&mut self) -> (stream: T::EventStream)
        ensures
            old(self).transport().keeps_log() ==> final(self).transport().keeps_log()
                && final(self).transport().taken() == old(self).transport().taken()
                && old(self).transport().opened(final(self).transport(), stream),
    {
        self.transport.subscribe()
    }

    fn report_peer(&mut self, peer_id: PeerId, reputation: i32)
        ensures
            old(self).transport().keeps_log() ==> final(self).transport().keeps_log()
                && final(self).transport().taken() == old(self).transport().taken().push(
                (RequestView::ReportPeer { peer_id: peer_id@, reputation }),
            ),
    {
        self.hand_over(Request::ReportPeer { peer_id, reputation });
    }

    fn disconnect_peer(&mut self, who: PeerId)
        ensures
            old(self).transport().keeps_log() ==> final(self).transport().keeps_log()
                && final(self).transport().taken() == old(self).transport().taken().push(
                (RequestView::DisconnectPeer { who: who@ }),
            ),
    {
        self.hand_over(Request::DisconnectPeer { who });
    }

    fn write_notification(&mut self, who: PeerId, engine_id: ConsensusEngineId, message: Vec<u8>)
        ensures
            old(self).transport().keeps_log() ==> final(self).transport().keeps_log()
                && final(self).transport().taken() == old(self).transport().taken().push(
                (RequestView::WriteNotification { who: who@, engine_id, message: message@ }),
            ),
    {
        self.hand_over(Request::WriteNotification { who, engine_id, message });
    }

    fn register_notifications_protocol(&mut self, engine_id: ConsensusEngineId)
        ensures
            old(self).transport().keeps_log() ==> final(self).transport().keeps_log()
                && final(self).transport().taken() == old(self).transport().taken().push(
                (RequestView::RegisterNotificationsProtocol { engine_id }),
            ),
    {
        self.hand_over(Request::RegisterNotificationsProtocol { engine_id });
    }

    fn announce(&mut self, block: H, associated_data: Vec<u8>)
        ensures
            old(self).transport().keeps_log() ==> final(self).transport().keeps_log()
                && final(self).transport().taken() == old(self).transport().taken().push(
                (RequestView::Announce { block, associated_data: associated_data@ }),
            ),
    {
        self.hand_over(Request::Announce { block, associated_data });
    }

    fn set_sync_fork_request(&mut self, peers: Vec<PeerId>, hash: H, number: N)
        ensures
            old(self).transport().keeps_log() ==> final(self).transport().keeps_log()
                && final(self).transport().taken() == old(self).transport().taken().push(
                (RequestView::SetSyncForkRequest {
                    peers: crate::request::peer_views(peers@),
                    hash,
                    number,
                }),
            ),
    {
        self.hand_over(Request::SetSyncForkRequest { peers, hash, number });
    }
}

impl<H, N, T: Transport<H, N> + Clone> Clone for NetworkAdapter<H, N, T> {
    /// A second handle to the same transport. It starts with the history of
    /// the first, and goes its own way from there.
    fn clone(&self) -> (copy: Self)
        ensures
            copy.issued() == self.issued(),
            cloned(*self.transport(), *copy.transport()),
    {
        NetworkAdapter { transport: self.transport.clone(), issued: Ghost(self.issued@) }
    }
}

} // verus!
