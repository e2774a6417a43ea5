use vstd::prelude::*;
use vstd::slice::{slice_index_get, slice_to_vec};

use crate::errors::HostError;
use crate::{is_id_len, NODE_ID_SIZE};

verus! {

/// Fixed 32-byte identifier of a peer or of the local node.
///
/// Immutable once constructed; equality is byte-exact.
pub struct NodeId {
    bytes: Vec<u8>,
}

impl View for NodeId {
    type V = Seq<u8>;

    closed spec fn view(&self) -> Seq<u8> {
        self.bytes@
    }
}

impl NodeId {
    /// Every identifier in existence holds exactly 32 bytes.
    #[verifier::type_invariant]
    pub closed spec fn well_formed(&self) -> bool {
        is_id_len(self.bytes@)
    }

    /// Builds an identifier from raw bytes; any length other than 32 bytes
    /// is rejected.
    pub fn from_bytes(bytes: &[u8]) -> (r: Result<NodeId, HostError>)
        ensures
            is_id_len(bytes@) ==> (r matches Ok(id) && id@ == bytes@),
            !is_id_len(bytes@) ==> r == Err::<NodeId, HostError>(
                HostError::InvalidIdentifierLength,
            ),
    {
        if bytes.len() == NODE_ID_SIZE {
            Ok(NodeId { bytes: slice_to_vec(bytes) })
        } else {
            Err(HostError::InvalidIdentifierLength)
        }
    }

    /// Read access to the identifier's bytes.
    pub fn as_bytes(&self) -> (r: &Vec<u8>)
        ensures
            r@ == self@,
            is_id_len(r@),
    {
        proof {
            use_type_invariant(self);
        }
        &self.bytes
    }

    /// An independent copy of the identifier.
    pub fn dup(&self) -> (r: NodeId)
        ensures
            r@ == self@,
    {
        proof {
            use_type_invariant(self);
        }
        NodeId { bytes: slice_to_vec(self.bytes.as_slice()) }
    }

    /// Byte-exact equality of two identifiers.
    pub fn same(&self, other: &NodeId) -> (r: bool)
        ensures
            r == (self@ == other@),
    {
        bytes_equal(self.bytes.as_slice(), other.bytes.as_slice())
    }
}

/// Byte-exact equality of two byte strings.
pub fn bytes_equal(a: &[u8], b: &[u8]) -> (r: bool)
    ensures
        r == (a@ == b@),
{
    if a.len() != b.len() {
        return false;
    }
    let mut i: usize = 0;
    while i < a.len()
        invariant
            i <= a@.len(),
            a@.len() == b@.len(),
            forall|j: int| 0 <= j < i ==> a@[j] == b@[j],
        decreases a@.len() - i,
    {
        if *slice_index_get(a, i) != *slice_index_get(b, i) {
            assert(a@[i as int] != b@[i as int]);
            return false;
        }
        i += 1;
    }
    proof {
        assert(a@ =~= b@);
    }
    true
}

/// A bootstrap entry: a peer the application already knows, handed once to
/// the directory when seeding.
pub struct NodeInfo {
    /// The peer's identifier; it is validated, not trusted, when seeded.
    pub id: Vec<u8>,
    /// Address at which the peer can be reached.
    pub ip: String,
    /// Port at which the peer can be reached.
    pub port: u16,
}

} // verus!
