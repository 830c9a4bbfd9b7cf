//! What the capability needs of the stack that moves the bytes.

use vstd::prelude::*;
use crate::request::Request;
use crate::request::RequestView;

verus! {

/// A transport: whatever takes the requests of the capability and reports what
/// happens on the network.
///
/// Nothing is asked of how a transport acts on a request. It may act on it
/// later, in part, or not at all: delivery is best effort, and what fails is
/// reported as an event, if it is reported. It must not make the caller wait
/// for a peer.
///
/// A transport may keep a log of the requests it took, for contracts to speak
/// of. One that does says so through [`Transport::keeps_log`], and then owes
/// what the two operations promise: of that log, and of the subscription that
/// it opens. One that does not, as every transport written in ordinary code,
/// owes nothing.
pub trait Transport<H, N> {
    /// A subscription to what happens on the network.
    type EventStream;

    /// Whether this transport keeps a log of the requests it took.
    open spec fn keeps_log(&self) -> bool {
        false
    }

    /// The requests that this transport took so far, oldest first, if it
    /// keeps a log of them.
    open spec fn taken(&self) -> Seq<RequestView<H, N>> {
        Seq::empty()
    }

    /// Whether `after` is this transport with one more subscription, opened
    /// now, and `stream` is that subscription. It is for a transport that
    /// keeps a log to say what that means.
    open spec fn opened(&self, after: &Self, stream: Self::EventStream) -> bool {
        true
    }

    /// Opens a subscription that starts now, and returns it. To subscribe is
    /// no request.
    fn subscribe(&mut self) -> (stream: Self::EventStream)
        ensures
            old(self).keeps_log() ==> final(self).keeps_log() && final(self).taken()
                == old(self).taken() && old(self).opened(final(self), stream),
    ;

    /// Takes `request`, to act on it as far as it can.
    fn perform(&mut self, request: Request<H, N>)
        ensures
            old(self).keeps_log() ==> final(self).keeps_log() && final(self).taken()
                == old(self).taken().push(request@),
    ;
}

} // verus!
