use vstd::prelude::*;
use vstd::slice::slice_to_vec;

use crate::errors::HostError;
use crate::{is_id_len, FRAGMENT_ID_SIZE};

verus! {

/// The digest that fragment addressing assigns to a byte payload. It depends
/// on the payload bytes alone; `blake2s_digest` below ties it to the
/// executable computation.
pub uninterp spec fn blake2s_of(data: Seq<u8>) -> Seq<u8>;

/// Relies on blake2s_simd::blake2s: a BLAKE2s digest of the input, 32 bytes
/// at the crate's default output length, determined by the input bytes alone.
#[verifier::external_body]
fn blake2s_digest(data: &[u8]) -> (r: Vec<u8>)
    ensures
        r@ == blake2s_of(data@),
        r@.len() == FRAGMENT_ID_SIZE,
{
    blake2s_simd::blake2s(data).as_bytes().to_vec()
}

/// Fixed 32-byte content digest identifying a fragment's bytes.
///
/// Immutable once constructed; equality is byte-exact.
pub struct FragmentId {
    bytes: Vec<u8>,
}

impl View for FragmentId {
    type V = Seq<u8>;

    closed spec fn view(&self) -> Seq<u8> {
        self.bytes@
    }
}

impl FragmentId {
    /// Every fragment identifier in existence holds exactly 32 bytes.
    #[verifier::type_invariant]
    pub closed spec fn well_formed(&self) -> bool {
        is_id_len(self.bytes@)
    }

    /// Accepts an identifier arriving from outside (a fragment event carries
    /// one); any length other than 32 bytes is rejected.
    pub fn from_bytes(bytes: &[u8]) -> (r: Result<FragmentId, HostError>)
        ensures
            is_id_len(bytes@) ==> (r matches Ok(id) && id@ == bytes@),
            !is_id_len(bytes@) ==> r == Err::<FragmentId, HostError>(
                HostError::InvalidIdentifierLength,
            ),
    {
        if bytes.len() == FRAGMENT_ID_SIZE {
            Ok(FragmentId { bytes: slice_to_vec(bytes) })
        } else {
            Err(HostError::InvalidIdentifierLength)
        }
    }

    /// Read access to the identifier's bytes.
    pub fn as_bytes(&self) -> (r: &Vec<u8>)
        ensures
            r@ == self@,
            is_id_len(r@),
    {
        proof {
            use_type_invariant(self);
        }
        &self.bytes
    }
}

/// What fragment addressing answers for each input: the digest for a present,
/// non-empty payload, and the exact error otherwise.
pub open spec fn fragment_id_spec(data: Option<Seq<u8>>) -> Result<Seq<u8>, HostError> {
    match data {
        Option::None => Err(HostError::MissingInput),
        Option::Some(d) => if d.len() == 0 {
            Err(HostError::EmptyPayload)
        } else {
            Ok(blake2s_of(d))
        },
    }
}

/// Computes the canonical identifier of a fragment from its bytes: the
/// 32-byte BLAKE2s digest of the payload. Fails with `MissingInput` when no
/// payload is supplied at all and with `EmptyPayload` when the payload is
/// empty; it has no other outcome.
pub fn id_for(data: Option<&Vec<u8>>) -> (r: Result<FragmentId, HostError>)
    ensures
        match r {
            Ok(id) => {
                &&& data matches Some(d) && d@.len() > 0
                &&& Ok::<Seq<u8>, HostError>(id@) == fragment_id_spec(spec_payload(data))
                &&& is_id_len(id@)
            },
            Err(e) => Err::<Seq<u8>, HostError>(e) == fragment_id_spec(spec_payload(data)),
        },
{
    match data {
        None => Err(HostError::MissingInput),
        Some(d) => {
            if d.len() == 0 {
                Err(HostError::EmptyPayload)
            } else {
                let digest = blake2s_digest(d.as_slice());
                Ok(FragmentId { bytes: digest })
            }
        },
    }
}

/// The payload an optional buffer holds, at the specification level.
pub open spec fn spec_payload(data: Option<&Vec<u8>>) -> Option<Seq<u8>> {
    match data {
        Option::None => Option::None,
        Option::Some(d) => Option::Some(d@),
    }
}

/// Fragment addressing is a pure function of the payload: equal payloads are
/// assigned equal identifiers, in any two computations.
pub proof fn lemma_id_for_deterministic(d1: Seq<u8>, d2: Seq<u8>)
    requires
        d1 == d2,
    ensures
        fragment_id_spec(Some(d1)) == fragment_id_spec(Some(d2)),
{
}

/// An immutable content-addressed byte payload together with the identifier
/// derived from it; the identifier is never constructed independently of the
/// data.
pub struct Fragment {
    id: FragmentId,
    data: Vec<u8>,
}

impl Fragment {
    /// The identifier is always the digest of the payload, and the payload is
    /// never empty.
    #[verifier::type_invariant]
    pub closed spec fn well_formed(&self) -> bool {
        self.id@ == blake2s_of(self.data@) && self.data@.len() > 0
    }

    /// The fragment's payload bytes.
    pub closed spec fn spec_data(&self) -> Seq<u8> {
        self.data@
    }

    /// Builds a fragment from its bytes, deriving the identifier; an empty
    /// payload is rejected.
    pub fn new(data: Vec<u8>) -> (r: Result<Fragment, HostError>)
        ensures
            data@.len() > 0 ==> (r matches Ok(f) && f.spec_data() == data@),
            data@.len() == 0 ==> r == Err::<Fragment, HostError>(HostError::EmptyPayload),
    {
        if data.len() == 0 {
            Err(HostError::EmptyPayload)
        } else {
            let digest = blake2s_digest(data.as_slice());
            Ok(Fragment { id: FragmentId { bytes: digest }, data })
        }
    }

    /// The derived identifier: always the digest of the payload.
    pub fn id(&self) -> (r: &FragmentId)
        ensures
            r@ == blake2s_of(self.spec_data()),
            is_id_len(r@),
    {
        proof {
            use_type_invariant(self);
            use_type_invariant(&self.id);
        }
        &self.id
    }

    /// The payload bytes.
    pub fn data(&self) -> (r: &Vec<u8>)
        ensures
            r@ == self.spec_data(),
            r@.len() > 0,
    {
        proof {
            use_type_invariant(self);
        }
        &self.data
    }
}

} // verus!
