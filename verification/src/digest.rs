//! Payload-integrity digest.
//!
//! The digest is taken over the logical payload bytes with trailing zero
//! bytes trimmed, because the payload sits zero-padded at the tail of its
//! buffer with no length marker. A payload that legitimately ends in zero
//! bytes is therefore indistinguishable from a truncated one; a safer wire
//! format would carry an explicit length prefix instead of relying on the
//! zero-padding convention, but the trimming semantics is the protocol and
//! is kept as it stands.
use vstd::prelude::*;

verus! {

use vstd::slice::slice_index_get;
use vstd::slice::slice_subrange;

/// `s` with its trailing zero bytes removed.
pub open spec fn trimmed(s: Seq<u8>) -> Seq<u8>
    decreases s.len(),
{
    if s.len() == 0 {
        s
    } else if s.last() == 0 {
        trimmed(s.drop_last())
    } else {
        s
    }
}

/// The 32-byte digest of a byte string. Its value is fixed by the Keccak-256
/// function; nothing here states what it is, only that equal inputs give
/// equal digests.
pub uninterp spec fn digest_of(data: Seq<u8>) -> Seq<u8>;

/// Relies on solana_keccak_hasher::hash: the Keccak-256 digest of the input,
/// 32 bytes, a function of the input bytes alone.
#[verifier::external_body]
fn keccak256(data: &[u8]) -> (r: Vec<u8>)
    ensures
        r@ == digest_of(data@),
        r@.len() == 32,
{
    solana_keccak_hasher::hash(data).to_bytes().to_vec()
}

/// Length of `data` once trailing zero bytes are dropped.
pub fn trimmed_len(data: &[u8]) -> (r: usize)
    ensures
        r <= data@.len(),
        data@.subrange(0, r as int) == trimmed(data@),
{
    let mut end = data.len();
    proof {
        assert(data@.subrange(0, end as int) =~= data@);
    }
    while end > 0 && *slice_index_get(data, end - 1) == 0
        invariant
            end <= data@.len(),
            trimmed(data@.subrange(0, end as int)) == trimmed(data@),
        decreases end,
    {
        proof {
            assert(data@.subrange(0, end - 1 as int) =~= data@.subrange(
                0,
                end as int,
            ).drop_last());
        }
        end = end - 1;
    }
    proof {
        let p = data@.subrange(0, end as int);
        if end > 0 {
            assert(p.last() != 0);
        }
        assert(trimmed(p) == p);
    }
    end
}

/// The digest of the logical payload: trailing zeros trimmed, then hashed.
pub open spec fn payload_digest(data: Seq<u8>) -> Seq<u8> {
    digest_of(trimmed(data))
}

/// Compute the digest of a payload as stored at creation time.
pub fn compute_payload_digest(data: &[u8]) -> (r: Vec<u8>)
    ensures
        r@ == payload_digest(data@),
        r@.len() == 32,
{
    let n = trimmed_len(data);
    keccak256(slice_subrange(data, 0, n))
}

/// Trimming ignores any amount of appended zero padding.
pub proof fn lemma_trimmed_ignores_zero_padding(s: Seq<u8>, pad: Seq<u8>)
    requires
        forall|i: int| 0 <= i < pad.len() ==> pad[i] == 0,
    ensures
        trimmed(s + pad) == trimmed(s),
    decreases pad.len(),
{
    if pad.len() == 0 {
        assert(s + pad =~= s);
    } else {
        let whole = s + pad;
        assert(whole.last() == 0);
        assert(whole.drop_last() =~= s + pad.drop_last());
        lemma_trimmed_ignores_zero_padding(s, pad.drop_last());
    }
}

/// Compare two byte strings for equality.
pub fn bytes_eq(a: &[u8], b: &[u8]) -> (r: bool)
    ensures
        r == (a@ == b@),
{
    if a.len() != b.len() {
        proof {
            assert(a@ != b@);
        }
        return false;
    }
    let n = a.len();
    let mut i: usize = 0;
    while i < n
        invariant
            n == a@.len() == b@.len(),
            i <= n,
            forall|j: int| 0 <= j < i ==> a@[j] == b@[j],
        decreases n - i,
    {
        if *slice_index_get(a, i) != *slice_index_get(b, i) {
            proof {
                assert(a@[i as int] != b@[i as int]);
            }
            return false;
        }
        i = i + 1;
    }
    proof {
        assert(a@ =~= b@);
    }
    true
}

} // verus!
