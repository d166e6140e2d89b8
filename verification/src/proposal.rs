//! The proposal record: fixed-size metadata for one pending privileged
//! action, its approval bitmask, and the integrity digest of its payload.
//!
//! On the wire the record is `PROPOSAL_SIZE` bytes, immediately followed in
//! the same buffer by the zero-padded payload region.
use vstd::prelude::*;

verus! {

use crate::bits::count_ones16;
use crate::bits::get_bit16;
use crate::bits::lemma_with_bit_idempotent;
use crate::bits::nth_bit;
use crate::bits::popcount;
use crate::bits::set_bit16;
use crate::bits::with_bit;
use crate::digest::bytes_eq;
use crate::digest::compute_payload_digest;
use crate::digest::payload_digest;
use crate::errors::MultisigError;
use crate::identity::Identity;
use crate::identity::lemma_identity_round_trip;
use vstd::bytes::lemma_auto_spec_u16_to_from_le_bytes;
use vstd::bytes::spec_u16_from_le_bytes;
use vstd::bytes::spec_u16_to_le_bytes;
use vstd::bytes::u16_from_le_bytes;
use vstd::bytes::u16_to_le_bytes;
use vstd::slice::slice_index_get;
use vstd::slice::slice_subrange;
use vstd::slice::slice_to_vec;

/// Format version this engine reads and writes for proposal records.
pub const PROPOSAL_VERSION: u8 = 1;

/// Wire size of the proposal metadata record; the payload region starts at
/// this offset in the proposal buffer.
pub const PROPOSAL_SIZE: usize = 101;

/// The mathematical content of a proposal record.
#[verifier::ext_equal]
pub struct ProposalView {
    pub version: u8,
    pub executed: u8,
    pub instruction_tag: u8,
    pub signer_approvals: u16,
    pub target_identity: Identity,
    pub authority_identity: Identity,
    pub payload_digest: Seq<u8>,
}

impl ProposalView {
    /// Structural shape: the digest is exactly 32 bytes.
    pub open spec fn wf(self) -> bool {
        self.payload_digest.len() == 32
    }

    /// Whether the proposal is sealed.
    pub open spec fn is_executed(self) -> bool {
        self.executed != 0
    }

    /// The number of distinct approving signers.
    pub open spec fn approval_count(self) -> int {
        popcount(self.signer_approvals, 16)
    }

    /// Whether the signer at `i` has approved.
    pub open spec fn is_approved_by(self, i: int) -> bool {
        nth_bit(self.signer_approvals, i)
    }

    /// This record with the approval bit for `i` set.
    pub open spec fn with_approval(self, i: int) -> ProposalView {
        ProposalView { signer_approvals: with_bit(self.signer_approvals, i), ..self }
    }

    /// This record marked executed.
    pub open spec fn sealed(self) -> ProposalView {
        ProposalView { executed: 1, ..self }
    }
}

/// The record a freshly created proposal holds: nothing approved, not
/// executed, digest taken over the trimmed payload.
pub open spec fn spec_new_proposal(
    instruction_tag: u8,
    target: Identity,
    authority: Identity,
    payload: Seq<u8>,
) -> ProposalView {
    ProposalView {
        version: PROPOSAL_VERSION,
        executed: 0,
        instruction_tag: instruction_tag,
        signer_approvals: 0,
        target_identity: target,
        authority_identity: authority,
        payload_digest: payload_digest(payload),
    }
}

/// The wire form of a proposal record: packed, little-endian, no padding.
pub open spec fn spec_encode_proposal(v: ProposalView) -> Seq<u8> {
    seq![v.version, v.executed, v.instruction_tag] + spec_u16_to_le_bytes(v.signer_approvals)
        + v.target_identity.bytes() + v.authority_identity.bytes() + v.payload_digest
}

/// The proposal record the head of a wire buffer holds.
pub open spec fn spec_decode_proposal(b: Seq<u8>) -> ProposalView
    recommends
        b.len() >= PROPOSAL_SIZE as int,
{
    ProposalView {
        version: b[0],
        executed: b[1],
        instruction_tag: b[2],
        signer_approvals: spec_u16_from_le_bytes(b.subrange(3, 5)),
        target_identity: Identity::decoded(b.subrange(5, 37)),
        authority_identity: Identity::decoded(b.subrange(37, 69)),
        payload_digest: b.subrange(69, 101),
    }
}

/// Encoding then decoding a well-shaped record gives it back unchanged.
pub proof fn lemma_proposal_round_trip(v: ProposalView)
    requires
        v.wf(),
    ensures
        spec_encode_proposal(v).len() == PROPOSAL_SIZE as int,
        spec_decode_proposal(spec_encode_proposal(v)) == v,
{
    lemma_auto_spec_u16_to_from_le_bytes();
    lemma_identity_round_trip(v.target_identity, Seq::empty());
    lemma_identity_round_trip(v.authority_identity, Seq::empty());
    let e = spec_encode_proposal(v);
    assert(e.subrange(3, 5) =~= spec_u16_to_le_bytes(v.signer_approvals));
    assert(e.subrange(5, 37) =~= v.target_identity.bytes());
    assert(e.subrange(37, 69) =~= v.authority_identity.bytes());
    assert(e.subrange(69, 101) =~= v.payload_digest);
    assert(spec_decode_proposal(e) =~= v);
}

/// Any buffer head re-encodes to itself: the decoder loses nothing.
pub proof fn lemma_proposal_bytes_round_trip(b: Seq<u8>)
    requires
        b.len() >= PROPOSAL_SIZE as int,
    ensures
        spec_decode_proposal(b).wf(),
        spec_encode_proposal(spec_decode_proposal(b)) == b.subrange(0, PROPOSAL_SIZE as int),
{
    lemma_auto_spec_u16_to_from_le_bytes();
    let d = spec_decode_proposal(b);
    lemma_identity_round_trip(d.target_identity, b.subrange(5, 37));
    lemma_identity_round_trip(d.authority_identity, b.subrange(37, 69));
    assert(spec_u16_to_le_bytes(d.signer_approvals) =~= b.subrange(3, 5));
    assert(spec_encode_proposal(d) =~= b.subrange(0, PROPOSAL_SIZE as int));
}

/// Decoding reads only the record head: appending a tail changes nothing.
pub proof fn lemma_decode_head(head: Seq<u8>, tail: Seq<u8>)
    requires
        head.len() >= PROPOSAL_SIZE as int,
    ensures
        spec_decode_proposal(head + tail) == spec_decode_proposal(head),
{
    let whole = head + tail;
    assert(whole.subrange(3, 5) =~= head.subrange(3, 5));
    assert(whole.subrange(5, 37) =~= head.subrange(5, 37));
    assert(whole.subrange(37, 69) =~= head.subrange(37, 69));
    assert(whole.subrange(69, 101) =~= head.subrange(69, 101));
    assert(spec_decode_proposal(whole) =~= spec_decode_proposal(head));
}

/// A pending proposal's metadata record.
///
/// The payload itself is not part of the record: it lives in the same
/// buffer right after these `PROPOSAL_SIZE` bytes, and only its digest is
/// recorded here.
#[derive(Clone, Debug)]
pub struct Proposal {
    /// Record format version.
    pub version: u8,
    /// 0 while pending, 1 once sealed; never reset.
    pub executed: u8,
    /// Which external action the execution gate should invoke.
    pub instruction_tag: u8,
    /// Bitmask of approvals; bit `i` is the signer at index `i` of the
    /// config this proposal is bound to.
    pub signer_approvals: u16,
    /// The buffer the gated action will mutate.
    pub target_identity: Identity,
    /// The signer-set config this proposal is bound to.
    pub authority_identity: Identity,
    /// Digest of the trimmed payload at creation time.
    pub payload_digest: Vec<u8>,
}

impl View for Proposal {
    type V = ProposalView;

    open spec fn view(&self) -> ProposalView {
        ProposalView {
            version: self.version,
            executed: self.executed,
            instruction_tag: self.instruction_tag,
            signer_approvals: self.signer_approvals,
            target_identity: self.target_identity,
            authority_identity: self.authority_identity,
            payload_digest: self.payload_digest@,
        }
    }
}

impl Proposal {
    /// Create a proposal over `instr_data`: digest stored, no approvals,
    /// not executed.
    pub fn new(
        instruction_tag: u8,
        target_identity: Identity,
        authority_identity: Identity,
        instr_data: &[u8],
    ) -> (p: Proposal)
        ensures
            p@ == spec_new_proposal(
                instruction_tag,
                target_identity,
                authority_identity,
                instr_data@,
            ),
            p@.wf(),
    {
        let payload_digest = compute_payload_digest(instr_data);
        let p = Proposal {
            version: PROPOSAL_VERSION,
            executed: 0,
            instruction_tag,
            signer_approvals: 0,
            target_identity,
            authority_identity,
            payload_digest,
        };
        proof {
            assert(p@ =~= spec_new_proposal(
                instruction_tag,
                target_identity,
                authority_identity,
                instr_data@,
            ));
        }
        p
    }

    /// Whether the presented payload still matches the digest stored at
    /// creation; re-checked on every approval, since the payload sits in
    /// attacker-writable storage.
    pub fn is_instruction_data_correct(&self, instr_data: &[u8]) -> (r: bool)
        ensures
            r == (self@.payload_digest == payload_digest(instr_data@)),
    {
        let d = compute_payload_digest(instr_data);
        bytes_eq(self.payload_digest.as_slice(), d.as_slice())
    }

    /// Whether the signer at `signer_index` has already approved.
    pub fn is_approved_by(&self, signer_index: usize) -> (r: bool)
        requires
            signer_index < 16,
        ensures
            r == self@.is_approved_by(signer_index as int),
    {
        get_bit16(self.signer_approvals, signer_index as u16)
    }

    /// The number of distinct approving signers.
    pub fn approval_count(&self) -> (c: u8)
        ensures
            c as int == self@.approval_count(),
    {
        count_ones16(self.signer_approvals)
    }

    /// Record an approval by the signer at `signer_index`; reports whether
    /// the bit was newly set. Never clears a bit.
    pub fn approve(&mut self, signer_index: usize) -> (updated: bool)
        requires
            signer_index < 16,
        ensures
            updated == !old(self)@.is_approved_by(signer_index as int),
            final(self)@ == old(self)@.with_approval(signer_index as int),
    {
        if !self.is_approved_by(signer_index) {
            self.signer_approvals = set_bit16(self.signer_approvals, signer_index as u16);
            proof {
                assert(final(self)@ =~= old(self)@.with_approval(signer_index as int));
            }
            true
        } else {
            proof {
                lemma_with_bit_idempotent(old(self)@.signer_approvals, signer_index as int);
                assert(final(self)@ =~= old(self)@.with_approval(signer_index as int));
            }
            false
        }
    }

    /// Whether the proposal is sealed.
    pub fn is_executed(&self) -> (r: bool)
        ensures
            r == self@.is_executed(),
    {
        self.executed != 0
    }

    /// Seal the proposal. Sealing twice would be a double-execution, an
    /// internal-consistency violation; the precondition rules it out, so
    /// the verified core can never attempt it.
    pub fn set_executed(&mut self)
        requires
            !old(self)@.is_executed(),
        ensures
            final(self)@ == old(self)@.sealed(),
    {
        self.executed = 1;
        proof {
            assert(final(self)@ =~= old(self)@.sealed());
        }
    }

    /// Whether the gated action may run: threshold reached and not yet
    /// sealed.
    pub fn is_ready_to_execute(&self, threshold: u8) -> (r: bool)
        ensures
            r == (self@.approval_count() >= threshold as int && !self@.is_executed()),
    {
        self.approval_count() >= threshold && !self.is_executed()
    }

    /// Serialize into the `PROPOSAL_SIZE`-byte wire form.
    pub fn to_bytes(&self) -> (r: Vec<u8>)
        requires
            self@.wf(),
        ensures
            r@ == spec_encode_proposal(self@),
            r@.len() == PROPOSAL_SIZE as int,
    {
        proof {
            lemma_auto_spec_u16_to_from_le_bytes();
            lemma_identity_round_trip(self@.target_identity, Seq::empty());
            lemma_identity_round_trip(self@.authority_identity, Seq::empty());
        }
        let mut r: Vec<u8> = Vec::new();
        r.push(self.version);
        r.push(self.executed);
        r.push(self.instruction_tag);
        let mut mask = u16_to_le_bytes(self.signer_approvals);
        r.append(&mut mask);
        let mut target = self.target_identity.to_le_bytes();
        r.append(&mut target);
        let mut authority = self.authority_identity.to_le_bytes();
        r.append(&mut authority);
        let mut digest = slice_to_vec(self.payload_digest.as_slice());
        r.append(&mut digest);
        proof {
            assert(r@ =~= spec_encode_proposal(self@));
        }
        r
    }

    /// Parse a proposal record from the head of a storage buffer;
    /// `CorruptRecord` exactly when the buffer cannot hold one.
    pub fn from_bytes(data: &[u8]) -> (r: Result<Proposal, MultisigError>)
        ensures
            r is Ok <==> data@.len() >= PROPOSAL_SIZE as int,
            match r {
                Ok(p) => p@ == spec_decode_proposal(data@) && p@.wf(),
                Err(e) => e == MultisigError::CorruptRecord,
            },
    {
        if data.len() < PROPOSAL_SIZE {
            return Err(MultisigError::CorruptRecord);
        }
        let version = *slice_index_get(data, 0);
        let executed = *slice_index_get(data, 1);
        let instruction_tag = *slice_index_get(data, 2);
        let signer_approvals = u16_from_le_bytes(slice_subrange(data, 3, 5));
        let target_identity = Identity::from_le_bytes(slice_subrange(data, 5, 37));
        let authority_identity = Identity::from_le_bytes(slice_subrange(data, 37, 69));
        let payload_digest = slice_to_vec(slice_subrange(data, 69, 101));
        let p = Proposal {
            version,
            executed,
            instruction_tag,
            signer_approvals,
            target_identity,
            authority_identity,
            payload_digest,
        };
        proof {
            assert(p@ =~= spec_decode_proposal(data@));
        }
        Ok(p)
    }

    /// Whether the record carries the version this engine writes.
    pub fn is_initialized(&self) -> (r: bool)
        ensures
            r == (self@.version == PROPOSAL_VERSION),
    {
        self.version == PROPOSAL_VERSION
    }
}

} // verus!
