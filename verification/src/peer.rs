//! Peer identities and protocol tags.

use vstd::prelude::*;

verus! {

/// Identifies one notification protocol among those that share a connection.
pub type ConsensusEngineId = [u8; 4];

/// The stable identity of a remote node: an opaque token that can be compared.
#[derive(Debug, Eq, Hash)]
pub struct PeerId {
    bytes: Vec<u8>,
}

impl View for PeerId {
    type V = Seq<u8>;

    closed spec fn view(&self) -> Seq<u8> {
        self.bytes@
    }
}

/// Whether two byte strings hold the same bytes.
pub fn same_bytes(left: &Vec<u8>, right: &Vec<u8>) -> (same: bool)
    ensures
        same <==> left@ == right@,
{
    if left.len() != right.len() {
        return false;
    }
    let mut at: usize = 0;
    while at < left.len()
        invariant
            left.len() == right.len(),
            at <= left.len(),
            forall|k: int| 0 <= k < at ==> left@[k] == right@[k],
        decreases left.len() - at,
    {
        if left[at] != right[at] {
            return false;
        }
        at += 1;
    }
    assert(left@ =~= right@);
    true
}

/// Whether two protocol tags are the same tag.
pub fn same_engine(left: &ConsensusEngineId, right: &ConsensusEngineId) -> (same: bool)
    ensures
        same <==> *left == *right,
{
    let same = left[0] == right[0] && left[1] == right[1] && left[2] == right[2] && left[3]
        == right[3];
    proof {
        if same {
            assert(*left =~= *right);
        }
    }
    same
}

impl PeerId {
    /// The peer that the transport knows under `bytes`.
    pub fn from_bytes(bytes: Vec<u8>) -> (peer: PeerId)
        ensures
            peer@ == bytes@,
    {
        PeerId { bytes }
    }

    /// The bytes under which the transport knows this peer.
    pub fn as_bytes(&self) -> (bytes: &Vec<u8>)
        ensures
            bytes@ == self@,
    {
        &self.bytes
    }
}

impl Clone for PeerId {
    fn clone(&self) -> (copy: PeerId)
        ensures
            copy@ == self@,
    {
        PeerId { bytes: self.bytes.clone() }
    }
}

impl PartialEq for PeerId {
    fn eq(&self, other: &PeerId) -> (same: bool) {
        same_bytes(&self.bytes, &other.bytes)
    }
}

impl vstd::std_specs::cmp::PartialEqSpecImpl for PeerId {
    open spec fn obeys_eq_spec() -> bool {
        true
    }

    open spec fn eq_spec(&self, other: &PeerId) -> bool {
        self@ == other@
    }
}

} // verus!
