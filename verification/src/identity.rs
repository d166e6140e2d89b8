//! Opaque participant and storage identifiers.
use vstd::prelude::*;

verus! {

use vstd::bytes::lemma_auto_spec_u64_to_from_le_bytes;
use vstd::bytes::spec_u64_from_le_bytes;
use vstd::bytes::spec_u64_to_le_bytes;
use vstd::bytes::u64_from_le_bytes;
use vstd::bytes::u64_to_le_bytes;
use vstd::slice::slice_subrange;

/// Number of bytes an identity occupies on the wire.
pub const IDENTITY_SIZE: usize = 32;

/// An opaque fixed-width public identifier naming a participant or a storage
/// location. On the wire it is 32 bytes; it is held here as four 64-bit
/// words, lowest-addressed word first, each little-endian.
#[derive(Clone, Copy, Debug, PartialEq, Eq, Structural)]
pub struct Identity {
    pub w0: u64,
    pub w1: u64,
    pub w2: u64,
    pub w3: u64,
}

impl Identity {
    /// The 32-byte wire form of this identity.
    pub open spec fn bytes(self) -> Seq<u8> {
        spec_u64_to_le_bytes(self.w0) + spec_u64_to_le_bytes(self.w1)
            + spec_u64_to_le_bytes(self.w2) + spec_u64_to_le_bytes(self.w3)
    }

    /// The identity a 32-byte sequence encodes.
    pub open spec fn decoded(s: Seq<u8>) -> Identity
        recommends
            s.len() == 32,
    {
        Identity {
            w0: spec_u64_from_le_bytes(s.subrange(0, 8)),
            w1: spec_u64_from_le_bytes(s.subrange(8, 16)),
            w2: spec_u64_from_le_bytes(s.subrange(16, 24)),
            w3: spec_u64_from_le_bytes(s.subrange(24, 32)),
        }
    }

    /// The all-zero sentinel that unused signer slots hold.
    pub open spec fn spec_zero() -> Identity {
        Identity { w0: 0, w1: 0, w2: 0, w3: 0 }
    }

    pub fn zero() -> (r: Identity)
        ensures
            r == Identity::spec_zero(),
    {
        Identity { w0: 0, w1: 0, w2: 0, w3: 0 }
    }

    pub fn new(w0: u64, w1: u64, w2: u64, w3: u64) -> (r: Identity)
        ensures
            r == (Identity { w0, w1, w2, w3 }),
    {
        Identity { w0, w1, w2, w3 }
    }

    /// Serialize into the 32-byte wire form.
    pub fn to_le_bytes(&self) -> (r: Vec<u8>)
        ensures
            r@ == self.bytes(),
            r@.len() == 32,
    {
        proof {
            lemma_auto_spec_u64_to_from_le_bytes();
        }
        let mut r = u64_to_le_bytes(self.w0);
        let mut b1 = u64_to_le_bytes(self.w1);
        let mut b2 = u64_to_le_bytes(self.w2);
        let mut b3 = u64_to_le_bytes(self.w3);
        r.append(&mut b1);
        r.append(&mut b2);
        r.append(&mut b3);
        r
    }

    /// Read an identity back from its 32-byte wire form.
    pub fn from_le_bytes(s: &[u8]) -> (r: Identity)
        requires
            s@.len() == 32,
        ensures
            r == Identity::decoded(s@),
    {
        let w0 = u64_from_le_bytes(slice_subrange(s, 0, 8));
        let w1 = u64_from_le_bytes(slice_subrange(s, 8, 16));
        let w2 = u64_from_le_bytes(slice_subrange(s, 16, 24));
        let w3 = u64_from_le_bytes(slice_subrange(s, 24, 32));
        Identity { w0, w1, w2, w3 }
    }
}

/// Wire and in-memory forms of an identity correspond one to one.
pub proof fn lemma_identity_round_trip(id: Identity, s: Seq<u8>)
    ensures
        id.bytes().len() == 32,
        Identity::decoded(id.bytes()) == id,
        s.len() == 32 ==> Identity::decoded(s).bytes() == s,
{
    lemma_auto_spec_u64_to_from_le_bytes();
    assert(id.bytes().subrange(0, 8) =~= spec_u64_to_le_bytes(id.w0));
    assert(id.bytes().subrange(8, 16) =~= spec_u64_to_le_bytes(id.w1));
    assert(id.bytes().subrange(16, 24) =~= spec_u64_to_le_bytes(id.w2));
    assert(id.bytes().subrange(24, 32) =~= spec_u64_to_le_bytes(id.w3));
    if s.len() == 32 {
        assert(Identity::decoded(s).bytes() =~= s);
    }
}

/// One presented caller: an identity together with the host's word on
/// whether that identity authenticated the current call.
#[derive(Clone, Copy, Debug, PartialEq, Eq, Structural)]
pub struct Caller {
    pub identity: Identity,
    pub authenticated: bool,
}

} // verus!
