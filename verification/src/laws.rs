//! Laws of the protocol, stated and proved over the same spec functions
//! that the entry operations' contracts use: the configuration invariant,
//! idempotence of repeated approvals, monotonicity of the approval bits,
//! the execute-once guarantee, and the digest round trip.
use vstd::prelude::*;

verus! {

use crate::bits::lemma_popcount_bounds;
use crate::bits::lemma_popcount_with_bit;
use crate::bits::lemma_popcount_zero;
use crate::bits::lemma_with_bit_frame;
use crate::bits::lemma_with_bit_idempotent;
use crate::bits::lemma_with_bit_monotone;
use crate::config::CONFIG_SIZE;
use crate::config::ConfigView;
use crate::config::MAX_SIGNERS;
use crate::config::lemma_first_index_props;
use crate::config::spec_decode_config;
use crate::digest::lemma_trimmed_ignores_zero_padding;
use crate::digest::payload_digest;
use crate::engine::approve_transition;
use crate::engine::zero_seq;
use crate::engine::lemma_payload_region_of_rewrite;
use crate::engine::payload_region;
use crate::engine::spec_approve_check;
use crate::engine::spec_invokes_action;
use crate::errors::MultisigError;
use crate::identity::Caller;
use crate::identity::Identity;
use crate::proposal::PROPOSAL_SIZE;
use crate::proposal::ProposalView;
use crate::proposal::lemma_decode_head;
use crate::proposal::lemma_proposal_bytes_round_trip;
use crate::proposal::lemma_proposal_round_trip;
use crate::proposal::spec_decode_proposal;
use crate::proposal::spec_encode_proposal;
use crate::proposal::spec_new_proposal;

/// Every valid signer-set record keeps the threshold reachable:
/// `0 < threshold <= signer_count <= MAX_SIGNERS`. Constructors and the
/// decoder admit no other record.
pub proof fn lemma_config_bounds(v: ConfigView)
    requires
        v.valid(),
    ensures
        0 < v.threshold as int,
        v.threshold as int <= v.signer_count as int,
        v.signer_count as int <= MAX_SIGNERS as int,
{
}

/// Everything a passed approval check pins down about its inputs.
pub proof fn lemma_check_ok_facts(
    pb: Seq<u8>,
    cfg: Seq<u8>,
    cfg_id: Identity,
    target: Identity,
    caller: Caller,
    i: int,
    already: bool,
)
    requires
        spec_approve_check(pb, cfg, cfg_id, target, caller) == Ok::<(int, bool), MultisigError>(
            (i, already),
        ),
    ensures
        pb.len() >= PROPOSAL_SIZE as int,
        !spec_decode_proposal(pb).is_executed(),
        spec_decode_proposal(pb).payload_digest == payload_digest(payload_region(pb)),
        cfg.len() >= CONFIG_SIZE as int,
        spec_decode_config(cfg).valid(),
        0 <= i < spec_decode_config(cfg).signer_count as int,
        i < 16,
        spec_decode_config(cfg).signers[i] == caller.identity,
        caller.authenticated,
        already == spec_decode_proposal(pb).is_approved_by(i),
{
    let cv = spec_decode_config(cfg);
    lemma_first_index_props(cv.signers, cv.signer_count as int, caller.identity);
}

/// Idempotence of approval: after a signer's bit is recorded, the same
/// signer's next call is accepted as `already approved` against an
/// unchanged record, and the approval count cannot rise further.
pub proof fn lemma_approve_idempotent(
    pb: Seq<u8>,
    cfg: Seq<u8>,
    cfg_id: Identity,
    target: Identity,
    caller: Caller,
    i: int,
    already: bool,
)
    requires
        spec_approve_check(pb, cfg, cfg_id, target, caller) == Ok::<(int, bool), MultisigError>(
            (i, already),
        ),
    ensures
        ({
            let p1 = spec_decode_proposal(pb).with_approval(i);
            let pb1 = spec_encode_proposal(p1) + payload_region(pb);
            &&& spec_approve_check(pb1, cfg, cfg_id, target, caller) == Ok::<
                (int, bool),
                MultisigError,
            >((i, true))
            &&& spec_decode_proposal(pb1) == p1
            &&& spec_decode_proposal(pb1).with_approval(i) == p1
            &&& spec_decode_proposal(pb1).approval_count() == p1.approval_count()
        }),
{
    lemma_check_ok_facts(pb, cfg, cfg_id, target, caller, i, already);
    let p0 = spec_decode_proposal(pb);
    let p1 = p0.with_approval(i);
    let pb1 = spec_encode_proposal(p1) + payload_region(pb);
    lemma_proposal_bytes_round_trip(pb);
    assert(p1.wf());
    lemma_proposal_round_trip(p1);
    lemma_decode_head(spec_encode_proposal(p1), payload_region(pb));
    lemma_payload_region_of_rewrite(spec_encode_proposal(p1), payload_region(pb));
    lemma_with_bit_frame(p0.signer_approvals, i);
    assert(p1.is_approved_by(i));
    lemma_with_bit_idempotent(p1.signer_approvals, i);
    assert(p1.with_approval(i) =~= p1);
    assert(spec_approve_check(pb1, cfg, cfg_id, target, caller) == Ok::<
        (int, bool),
        MultisigError,
    >((i, true)));
}

/// A fresh proposal starts with no approvals and pending.
pub proof fn lemma_new_proposal_pending(
    instruction_tag: u8,
    target: Identity,
    authority: Identity,
    payload: Seq<u8>,
)
    ensures
        spec_new_proposal(instruction_tag, target, authority, payload).approval_count() == 0,
        !spec_new_proposal(instruction_tag, target, authority, payload).is_executed(),
{
    lemma_popcount_zero(16);
}

/// An accepted approval raises the count by exactly one when the bit is
/// new and leaves it unchanged when the signer had already approved; the
/// count never leaves `0 ..= 16`.
pub proof fn lemma_approval_count_step(
    pb: Seq<u8>,
    cfg: Seq<u8>,
    cfg_id: Identity,
    target: Identity,
    caller: Caller,
    i: int,
    already: bool,
)
    requires
        spec_approve_check(pb, cfg, cfg_id, target, caller) == Ok::<(int, bool), MultisigError>(
            (i, already),
        ),
    ensures
        ({
            let p0 = spec_decode_proposal(pb);
            let p1 = p0.with_approval(i);
            &&& p1.approval_count() == p0.approval_count() + if already {
                0int
            } else {
                1
            }
            &&& 0 <= p0.approval_count() <= 16
            &&& 0 <= p1.approval_count() <= 16
        }),
{
    lemma_check_ok_facts(pb, cfg, cfg_id, target, caller, i, already);
    let p0 = spec_decode_proposal(pb);
    lemma_popcount_with_bit(p0.signer_approvals, i);
    lemma_popcount_bounds(p0.signer_approvals, 16);
    lemma_popcount_bounds(p0.with_approval(i).signer_approvals, 16);
}

/// Approval order among distinct signers is irrelevant: recording two
/// bits in either order yields the same record. Only the final set of
/// bits matters.
pub proof fn lemma_approvals_commute(p: ProposalView, i: int, j: int)
    requires
        0 <= i < 16,
        0 <= j < 16,
    ensures
        p.with_approval(i).with_approval(j) == p.with_approval(j).with_approval(i),
{
    let m = p.signer_approvals;
    let iu = i as u16;
    let ju = j as u16;
    assert((m | (1u16 << iu)) | (1u16 << ju) == (m | (1u16 << ju)) | (1u16 << iu))
        by (bit_vector);
    assert(p.with_approval(i).with_approval(j) =~= p.with_approval(j).with_approval(i));
}

/// Monotonicity across one approval call: no approval bit is ever
/// cleared, the buffer keeps its length, and a sealed record stays
/// sealed.
pub proof fn lemma_transition_monotone(
    pb0: Seq<u8>,
    pb1: Seq<u8>,
    cfg: Seq<u8>,
    cfg_id: Identity,
    target: Identity,
    caller: Caller,
    action_ok: bool,
)
    requires
        approve_transition(pb0, pb1, cfg, cfg_id, target, caller, action_ok),
    ensures
        pb1.len() == pb0.len(),
        forall|j: int|
            spec_decode_proposal(pb0).is_approved_by(j) ==> spec_decode_proposal(
                pb1,
            ).is_approved_by(j),
        pb0.len() >= PROPOSAL_SIZE as int && spec_decode_proposal(pb0).is_executed()
            ==> spec_decode_proposal(pb1).is_executed(),
{
    match spec_approve_check(pb0, cfg, cfg_id, target, caller) {
        Err(_) => {},
        Ok((i, already)) => {
            lemma_check_ok_facts(pb0, cfg, cfg_id, target, caller, i, already);
            let p0 = spec_decode_proposal(pb0);
            let p1 = p0.with_approval(i);
            lemma_proposal_bytes_round_trip(pb0);
            lemma_proposal_round_trip(p1);
            lemma_proposal_round_trip(p1.sealed());
            lemma_decode_head(spec_encode_proposal(p1), payload_region(pb0));
            lemma_decode_head(spec_encode_proposal(p1.sealed()), payload_region(pb0));
            lemma_with_bit_monotone(p0.signer_approvals, i);
        },
    }
}

/// Whether a buffer holds a sealed proposal record.
pub open spec fn record_sealed(pb: Seq<u8>) -> bool {
    pb.len() >= PROPOSAL_SIZE as int && spec_decode_proposal(pb).is_executed()
}

/// A run of approval calls against one proposal buffer: `states` are the
/// buffer's contents between calls, each event a presented caller
/// together with what the injected action answered where the execution gate ran.
pub open spec fn approval_chain(
    states: Seq<Seq<u8>>,
    events: Seq<(Caller, bool)>,
    cfg: Seq<u8>,
    cfg_id: Identity,
    target: Identity,
) -> bool {
    &&& states.len() == events.len() + 1
    &&& forall|k: int|
        0 <= k < events.len() ==> approve_transition(
            #[trigger] states[k],
            states[k + 1],
            cfg,
            cfg_id,
            target,
            (#[trigger] events[k]).0,
            events[k].1,
        )
}

/// How many of the first `n` calls reached the execution gate and saw the
/// injected action succeed.
pub open spec fn successful_invocations(
    states: Seq<Seq<u8>>,
    events: Seq<(Caller, bool)>,
    cfg: Seq<u8>,
    cfg_id: Identity,
    target: Identity,
    n: int,
) -> int
    decreases n,
{
    if n <= 0 {
        0
    } else {
        successful_invocations(states, events, cfg, cfg_id, target, n - 1) + if spec_invokes_action(
            states[n - 1],
            cfg,
            cfg_id,
            target,
            events[n - 1].0,
        ) && events[n - 1].1 {
            1int
        } else {
            0
        }
    }
}

/// The execution gate runs only on a pending record whose mask, with the caller's
/// bit included, meets the threshold.
pub proof fn lemma_invocation_needs_quorum(
    pb: Seq<u8>,
    cfg: Seq<u8>,
    cfg_id: Identity,
    target: Identity,
    caller: Caller,
)
    requires
        spec_invokes_action(pb, cfg, cfg_id, target, caller),
    ensures
        pb.len() >= PROPOSAL_SIZE as int,
        !spec_decode_proposal(pb).is_executed(),
        match spec_approve_check(pb, cfg, cfg_id, target, caller) {
            Ok((i, already)) => spec_decode_proposal(pb).with_approval(i).approval_count()
                >= spec_decode_config(cfg).threshold as int,
            Err(_) => false,
        },
{
    match spec_approve_check(pb, cfg, cfg_id, target, caller) {
        Ok((i, already)) => {
            lemma_check_ok_facts(pb, cfg, cfg_id, target, caller, i, already);
        },
        Err(_) => {},
    }
}

proof fn lemma_execute_once_rec(
    states: Seq<Seq<u8>>,
    events: Seq<(Caller, bool)>,
    cfg: Seq<u8>,
    cfg_id: Identity,
    target: Identity,
    n: int,
)
    requires
        approval_chain(states, events, cfg, cfg_id, target),
        0 <= n <= events.len(),
    ensures
        0 <= successful_invocations(states, events, cfg, cfg_id, target, n) <= 1,
        successful_invocations(states, events, cfg, cfg_id, target, n) == 1 ==> record_sealed(
            states[n],
        ),
    decreases n,
{
    if n > 0 {
        lemma_execute_once_rec(states, events, cfg, cfg_id, target, n - 1);
        let pb0 = states[n - 1];
        let pb1 = states[n];
        let c = events[n - 1].0;
        let ok = events[n - 1].1;
        assert(approve_transition(pb0, pb1, cfg, cfg_id, target, c, ok));
        if spec_invokes_action(pb0, cfg, cfg_id, target, c) {
            match spec_approve_check(pb0, cfg, cfg_id, target, c) {
                Ok((i, already)) => {
                    lemma_check_ok_facts(pb0, cfg, cfg_id, target, c, i, already);
                    assert(!record_sealed(pb0));
                    assert(successful_invocations(states, events, cfg, cfg_id, target, n - 1)
                        == 0);
                    if ok {
                        let p1 = spec_decode_proposal(pb0).with_approval(i);
                        lemma_proposal_bytes_round_trip(pb0);
                        assert(p1.sealed().wf());
                        lemma_proposal_round_trip(p1.sealed());
                        lemma_decode_head(spec_encode_proposal(p1.sealed()), payload_region(pb0));
                        assert(record_sealed(pb1));
                    }
                },
                Err(_) => {
                    assert(false);
                },
            }
        } else {
            if successful_invocations(states, events, cfg, cfg_id, target, n - 1) == 1 {
                assert(record_sealed(pb0));
                assert(spec_approve_check(pb0, cfg, cfg_id, target, c) == Err::<
                    (int, bool),
                    MultisigError,
                >(MultisigError::AlreadyExecuted));
                assert(pb1 == pb0);
            }
        }
    }
}

/// Execute-once: across any run of approval calls against one proposal
/// buffer, the injected action succeeds at most once, and the record is
/// sealed from that call on.
pub proof fn lemma_execute_once(
    states: Seq<Seq<u8>>,
    events: Seq<(Caller, bool)>,
    cfg: Seq<u8>,
    cfg_id: Identity,
    target: Identity,
)
    requires
        approval_chain(states, events, cfg, cfg_id, target),
    ensures
        0 <= successful_invocations(
            states,
            events,
            cfg,
            cfg_id,
            target,
            events.len() as int,
        ) <= 1,
{
    lemma_execute_once_rec(states, events, cfg, cfg_id, target, events.len() as int);
}

/// Once sealed, a proposal buffer never changes again and the execution gate never
/// runs again.
pub proof fn lemma_sealed_is_final(
    pb0: Seq<u8>,
    pb1: Seq<u8>,
    cfg: Seq<u8>,
    cfg_id: Identity,
    target: Identity,
    caller: Caller,
    action_ok: bool,
)
    requires
        record_sealed(pb0),
        approve_transition(pb0, pb1, cfg, cfg_id, target, caller, action_ok),
    ensures
        pb1 == pb0,
        !spec_invokes_action(pb0, cfg, cfg_id, target, caller),
{
}

/// Monotonicity across a whole run: an approval bit set at the start is
/// still set after any number of calls.
pub proof fn lemma_chain_monotone(
    states: Seq<Seq<u8>>,
    events: Seq<(Caller, bool)>,
    cfg: Seq<u8>,
    cfg_id: Identity,
    target: Identity,
    n: int,
)
    requires
        approval_chain(states, events, cfg, cfg_id, target),
        0 <= n <= events.len(),
    ensures
        forall|j: int|
            spec_decode_proposal(states[0]).is_approved_by(j) ==> spec_decode_proposal(
                states[n],
            ).is_approved_by(j),
    decreases n,
{
    if n > 0 {
        lemma_chain_monotone(states, events, cfg, cfg_id, target, n - 1);
        lemma_transition_monotone(
            states[n - 1],
            states[n],
            cfg,
            cfg_id,
            target,
            events[n - 1].0,
            events[n - 1].1,
        );
    }
}

/// A proposal as persisted by a successful submission passes the approval
/// path's integrity check against its own stored payload, whatever spare
/// zero-padded capacity the buffer had.
pub proof fn lemma_submitted_payload_verifies(
    instruction_tag: u8,
    target: Identity,
    authority: Identity,
    payload: Seq<u8>,
    spare: int,
)
    requires
        spare >= 0,
        spec_new_proposal(instruction_tag, target, authority, payload).wf(),
    ensures
        ({
            let p = spec_new_proposal(instruction_tag, target, authority, payload);
            let pb = spec_encode_proposal(p) + (payload + zero_seq(spare));
            &&& spec_decode_proposal(pb) == p
            &&& spec_decode_proposal(pb).payload_digest == payload_digest(payload_region(pb))
        }),
{
    let p = spec_new_proposal(instruction_tag, target, authority, payload);
    let tail = payload + zero_seq(spare);
    lemma_proposal_round_trip(p);
    lemma_decode_head(spec_encode_proposal(p), tail);
    lemma_payload_region_of_rewrite(spec_encode_proposal(p), tail);
    lemma_trimmed_ignores_zero_padding(payload, zero_seq(spare));
}

/// Digest round trip: a fresh proposal accepts its own payload, with any
/// amount of appended zero padding. A zero-suffixed payload is thus
/// indistinguishable from its trimmed form, the documented boundary case
/// of the trimming convention.
pub proof fn lemma_digest_round_trip(
    instruction_tag: u8,
    target: Identity,
    authority: Identity,
    payload: Seq<u8>,
    pad: Seq<u8>,
)
    requires
        forall|k: int| 0 <= k < pad.len() ==> pad[k] == 0u8,
    ensures
        spec_new_proposal(instruction_tag, target, authority, payload).payload_digest
            == payload_digest(payload),
        spec_new_proposal(instruction_tag, target, authority, payload).payload_digest
            == payload_digest(payload + pad),
{
    lemma_trimmed_ignores_zero_padding(payload, pad);
}

} // verus!
