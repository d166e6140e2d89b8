//! Entry operations of the protocol: submitting a proposal and approving
//! it, with the execution gate that runs the injected action exactly when
//! the threshold is first reached.
use vstd::prelude::*;

verus! {

use crate::config::CONFIG_SIZE;
use crate::config::MultisigConfig;
use crate::config::spec_decode_config;
use crate::errors::MultisigError;
use crate::errors::Outcome;
use crate::identity::Caller;
use crate::identity::Identity;
use crate::digest::payload_digest;
use crate::proposal::PROPOSAL_SIZE;
use crate::proposal::Proposal;
use crate::proposal::spec_decode_proposal;
use crate::proposal::spec_encode_proposal;
use crate::proposal::spec_new_proposal;
use vstd::slice::slice_index_get;
use vstd::slice::slice_subrange;
use vstd::slice::slice_to_vec;

/// The capability the execution gate depends on: the one privileged action
/// a proposal unlocks. The execution gate treats it as fallible and reports a failure
/// as `ActionFailed` without rolling back any approval, so an
/// implementation must tolerate a later retry.
pub trait ProposalAction {
    /// Perform the gated action for `payload` against the `target` buffer
    /// under the authority of the signer set at `authority`.
    fn execute(&mut self, payload: &[u8], target: Identity, authority: Identity) -> Result<
        (),
        MultisigError,
    >;
}

/// The payload region of a proposal buffer: everything after the record.
pub open spec fn payload_region(pb: Seq<u8>) -> Seq<u8> {
    pb.skip(PROPOSAL_SIZE as int)
}

/// `n` zero bytes.
pub open spec fn zero_seq(n: int) -> Seq<u8> {
    Seq::new(n as nat, |i: int| 0u8)
}

/// The validation an approval call runs before touching any state, in
/// order: record present, not yet executed, payload untampered, bound
/// config and target presented, config well-formed, caller a signer,
/// caller authenticated. Yields the caller's signer index and whether its
/// bit is already set, or the first error.
pub open spec fn spec_approve_check(
    pb: Seq<u8>,
    cfg_bytes: Seq<u8>,
    cfg_id: Identity,
    target: Identity,
    caller: Caller,
) -> Result<(int, bool), MultisigError> {
    if pb.len() < PROPOSAL_SIZE as int {
        Err(MultisigError::CorruptRecord)
    } else {
        let p = spec_decode_proposal(pb);
        if p.is_executed() {
            Err(MultisigError::AlreadyExecuted)
        } else if p.payload_digest != payload_digest(payload_region(pb)) {
            Err(MultisigError::DigestMismatch)
        } else if cfg_id != p.authority_identity || target != p.target_identity {
            Err(MultisigError::AuthorityMismatch)
        } else if cfg_bytes.len() < CONFIG_SIZE as int {
            Err(MultisigError::CorruptRecord)
        } else if !spec_decode_config(cfg_bytes).valid() {
            Err(MultisigError::InvalidConfig)
        } else {
            match spec_decode_config(cfg_bytes).resolve_index(caller.identity) {
                None => Err(MultisigError::NotASigner),
                Some(i) => if !caller.authenticated {
                    Err(MultisigError::MissingSignature)
                } else {
                    Ok((i, p.is_approved_by(i)))
                },
            }
        }
    }
}

/// Whether an approval call reaches the execution gate: all checks pass
/// and the mask with the caller's bit set meets the threshold. Note the
/// record is then necessarily still pending, and a retry by an
/// already-approved signer reaches the execution gate again.
pub open spec fn spec_invokes_action(
    pb: Seq<u8>,
    cfg_bytes: Seq<u8>,
    cfg_id: Identity,
    target: Identity,
    caller: Caller,
) -> bool {
    match spec_approve_check(pb, cfg_bytes, cfg_id, target, caller) {
        Ok((i, already)) => spec_decode_proposal(pb).with_approval(i).approval_count()
            >= spec_decode_config(cfg_bytes).threshold as int,
        Err(e) => false,
    }
}

/// The outcome reported for a recorded (or re-presented) approval.
pub open spec fn spec_outcome(already: bool, n: int, executed: bool) -> Outcome {
    if already {
        Outcome::AlreadyApproved { approvals_now: n as u8, executed }
    } else {
        Outcome::Approved { approvals_now: n as u8, executed }
    }
}

/// The validation a submission runs, in order: creator authenticated,
/// config present and well-formed, buffer large enough for record plus
/// payload.
pub open spec fn spec_submit_check(
    creator: Caller,
    cfg_bytes: Seq<u8>,
    buf: Seq<u8>,
    payload: Seq<u8>,
) -> Option<MultisigError> {
    if !creator.authenticated {
        Some(MultisigError::MissingSignature)
    } else if cfg_bytes.len() < CONFIG_SIZE as int {
        Some(MultisigError::CorruptRecord)
    } else if !spec_decode_config(cfg_bytes).valid() {
        Some(MultisigError::InvalidConfig)
    } else if buf.len() < PROPOSAL_SIZE as int + payload.len() {
        Some(MultisigError::CorruptRecord)
    } else {
        None
    }
}

/// One approval call's effect on the proposal buffer, exactly as the
/// contract of `approve_proposal` admits it: a rejected call leaves the
/// buffer as it was; an accepted call persists the caller's bit, and a
/// call that reaches the execution gate additionally seals the record exactly when
/// the injected action reported success (`action_ok`).
pub open spec fn approve_transition(
    pb0: Seq<u8>,
    pb1: Seq<u8>,
    cfg_bytes: Seq<u8>,
    cfg_id: Identity,
    target: Identity,
    caller: Caller,
    action_ok: bool,
) -> bool {
    match spec_approve_check(pb0, cfg_bytes, cfg_id, target, caller) {
        Err(e) => pb1 == pb0,
        Ok((i, already)) => {
            let p1 = spec_decode_proposal(pb0).with_approval(i);
            let ready = p1.approval_count() >= spec_decode_config(cfg_bytes).threshold as int;
            if ready && action_ok {
                pb1 == spec_encode_proposal(p1.sealed()) + payload_region(pb0)
            } else {
                pb1 == spec_encode_proposal(p1) + payload_region(pb0)
            }
        },
    }
}

/// The payload region of a rewritten buffer is the appended tail itself.
pub proof fn lemma_payload_region_of_rewrite(head: Seq<u8>, tail: Seq<u8>)
    requires
        head.len() == PROPOSAL_SIZE as int,
    ensures
        payload_region(head + tail) == tail,
{
    assert(payload_region(head + tail) =~= tail);
}

/// Overwrite `buf[off .. off + src.len()]` with `src`.
fn write_at(buf: &mut Vec<u8>, off: usize, src: &[u8])
    requires
        off + src@.len() <= old(buf)@.len(),
    ensures
        final(buf)@.len() == old(buf)@.len(),
        forall|j: int| 0 <= j < off as int ==> final(buf)@[j] == old(buf)@[j],
        forall|j: int|
            off as int <= j < off as int + src@.len() ==> final(buf)@[j] == src@[j - off as int],
        forall|j: int|
            off as int + src@.len() <= j < old(buf)@.len() ==> final(buf)@[j] == old(buf)@[j],
{
    let n = src.len();
    let total = buf.len();
    let mut i: usize = 0;
    while i < n
        invariant
            n == src@.len(),
            total == buf@.len(),
            off + n <= total,
            buf@.len() == old(buf)@.len(),
            i <= n,
            forall|j: int| 0 <= j < off as int ==> buf@[j] == old(buf)@[j],
            forall|j: int| off as int <= j < off as int + i as int ==> buf@[j] == src@[j - off as int],
            forall|j: int| off as int + i as int <= j < old(buf)@.len() ==> buf@[j] == old(buf)@[j],
        decreases n - i,
    {
        buf.set(off + i, *slice_index_get(src, i));
        i = i + 1;
    }
}

/// Set every byte of `buf[from ..]` to zero.
fn zero_fill(buf: &mut Vec<u8>, from: usize)
    requires
        from <= old(buf)@.len(),
    ensures
        final(buf)@.len() == old(buf)@.len(),
        forall|j: int| 0 <= j < from as int ==> final(buf)@[j] == old(buf)@[j],
        forall|j: int| from as int <= j < old(buf)@.len() ==> final(buf)@[j] == 0u8,
{
    let n = buf.len();
    let mut i: usize = from;
    while i < n
        invariant
            n == buf@.len() == old(buf)@.len(),
            from <= i <= n,
            forall|j: int| 0 <= j < from as int ==> buf@[j] == old(buf)@[j],
            forall|j: int| from as int <= j < i as int ==> buf@[j] == 0u8,
        decreases n - i,
    {
        buf.set(i, 0);
        i = i + 1;
    }
}

/// Overwrite the record head of a proposal buffer, leaving the payload
/// region as it is.
fn write_head(buf: &mut Vec<u8>, p: &Proposal)
    requires
        old(buf)@.len() >= PROPOSAL_SIZE as int,
        p@.wf(),
    ensures
        final(buf)@ == spec_encode_proposal(p@) + payload_region(old(buf)@),
        final(buf)@.len() == old(buf)@.len(),
        spec_encode_proposal(p@).len() == PROPOSAL_SIZE as int,
        payload_region(final(buf)@) == payload_region(old(buf)@),
{
    let head = p.to_bytes();
    write_at(buf, 0, head.as_slice());
    proof {
        assert(final(buf)@ =~= spec_encode_proposal(p@) + payload_region(old(buf)@));
        assert(payload_region(final(buf)@) =~= payload_region(old(buf)@));
    }
}

/// Create and persist a proposal: validate the creator and the presented
/// config, then fill the buffer with the fresh record, the payload, and
/// zero padding up to the buffer's capacity. On any rejection the buffer
/// is left untouched.
pub fn submit_proposal(
    creator: &Caller,
    target: Identity,
    config_data: &[u8],
    config_identity: Identity,
    instruction_tag: u8,
    payload: &[u8],
    proposal_buffer: &mut Vec<u8>,
) -> (r: Result<(), MultisigError>)
    ensures
        final(proposal_buffer)@.len() == old(proposal_buffer)@.len(),
        ({
            let check = spec_submit_check(*creator, config_data@, old(proposal_buffer)@, payload@);
            match check {
                Some(e) => r == Err::<(), MultisigError>(e) && final(proposal_buffer)@ == old(
                    proposal_buffer,
                )@,
                None => r == Ok::<(), MultisigError>(()) && final(proposal_buffer)@
                    == spec_encode_proposal(
                    spec_new_proposal(instruction_tag, target, config_identity, payload@),
                ) + payload@ + zero_seq(
                    old(proposal_buffer)@.len() - PROPOSAL_SIZE as int - payload@.len(),
                ),
            }
        }),
{
    if !creator.authenticated {
        return Err(MultisigError::MissingSignature);
    }
    match MultisigConfig::from_bytes(config_data) {
        Ok(_) => (),
        Err(e) => {
            return Err(e);
        },
    }
    if proposal_buffer.len() < PROPOSAL_SIZE || proposal_buffer.len() - PROPOSAL_SIZE
        < payload.len() {
        return Err(MultisigError::CorruptRecord);
    }
    let p = Proposal::new(instruction_tag, target, config_identity, payload);
    let head = p.to_bytes();
    write_at(proposal_buffer, 0, head.as_slice());
    write_at(proposal_buffer, PROPOSAL_SIZE, payload);
    zero_fill(proposal_buffer, PROPOSAL_SIZE + payload.len());
    proof {
        assert(final(proposal_buffer)@ =~= spec_encode_proposal(
            spec_new_proposal(instruction_tag, target, config_identity, payload@),
        ) + payload@ + zero_seq(
            old(proposal_buffer)@.len() - PROPOSAL_SIZE as int - payload@.len(),
        ));
    }
    Ok(())
}

/// Process one approval call.
///
/// Runs the checks of `spec_approve_check`; on success records the
/// caller's approval bit (idempotently) and persists it, then, exactly
/// when the updated mask meets the threshold on a still-pending record,
/// hands the payload to the injected action. If the action succeeds the
/// record is sealed; if it fails, `ActionFailed` is reported and the
/// recorded approvals stay as persisted, so the quorum survives for a
/// retry. On any rejection the buffer is left untouched.
pub fn approve_proposal<A: ProposalAction>(
    caller: &Caller,
    proposal_buffer: &mut Vec<u8>,
    target: Identity,
    config_data: &[u8],
    config_identity: Identity,
    action: &mut A,
) -> (r: Result<Outcome, MultisigError>)
    ensures
        final(proposal_buffer)@.len() == old(proposal_buffer)@.len(),
        payload_region(final(proposal_buffer)@) == payload_region(old(proposal_buffer)@),
        approve_transition(
            old(proposal_buffer)@,
            final(proposal_buffer)@,
            config_data@,
            config_identity,
            target,
            *caller,
            r is Ok,
        ),
        ({
            let pb0 = old(proposal_buffer)@;
            let check = spec_approve_check(pb0, config_data@, config_identity, target, *caller);
            match check {
                Err(e) => r == Err::<Outcome, MultisigError>(e) && final(proposal_buffer)@ == pb0,
                Ok((i, already)) => {
                    let p1 = spec_decode_proposal(pb0).with_approval(i);
                    let n = p1.approval_count();
                    let ready = n >= spec_decode_config(config_data@).threshold as int;
                    &&& (!ready ==> final(proposal_buffer)@ == spec_encode_proposal(p1)
                        + payload_region(pb0) && r == Ok::<Outcome, MultisigError>(
                        spec_outcome(already, n, false),
                    ))
                    &&& (ready ==> (final(proposal_buffer)@ == spec_encode_proposal(p1.sealed())
                        + payload_region(pb0) && r == Ok::<Outcome, MultisigError>(
                        spec_outcome(already, n, true),
                    )) || (final(proposal_buffer)@ == spec_encode_proposal(p1) + payload_region(
                        pb0,
                    ) && r == Err::<Outcome, MultisigError>(MultisigError::ActionFailed)))
                },
            }
        }),
{
    let mut p = match Proposal::from_bytes(proposal_buffer.as_slice()) {
        Ok(p) => p,
        Err(e) => {
            return Err(e);
        },
    };
    if p.is_executed() {
        return Err(MultisigError::AlreadyExecuted);
    }
    let payload: Vec<u8> = slice_to_vec(
        slice_subrange(proposal_buffer.as_slice(), PROPOSAL_SIZE, proposal_buffer.len()),
    );
    proof {
        assert(payload@ =~= payload_region(proposal_buffer@));
    }
    if !p.is_instruction_data_correct(payload.as_slice()) {
        return Err(MultisigError::DigestMismatch);
    }
    if config_identity != p.authority_identity || target != p.target_identity {
        return Err(MultisigError::AuthorityMismatch);
    }
    let cfg = match MultisigConfig::from_bytes(config_data) {
        Ok(c) => c,
        Err(e) => {
            return Err(e);
        },
    };
    let signer_index = match cfg.resolve_index(&caller.identity) {
        Some(i) => i,
        None => {
            return Err(MultisigError::NotASigner);
        },
    };
    if !caller.authenticated {
        return Err(MultisigError::MissingSignature);
    }
    let already = p.is_approved_by(signer_index);
    p.approve(signer_index);
    let approvals_now = p.approval_count();
    let ready = p.is_ready_to_execute(cfg.threshold);
    write_head(proposal_buffer, &p);
    if ready {
        match action.execute(payload.as_slice(), target, config_identity) {
            Ok(_) => {
                p.set_executed();
                write_head(proposal_buffer, &p);
                Ok(make_outcome(already, approvals_now, true))
            },
            Err(_) => Err(MultisigError::ActionFailed),
        }
    } else {
        Ok(make_outcome(already, approvals_now, false))
    }
}

fn make_outcome(already: bool, approvals_now: u8, executed: bool) -> (o: Outcome)
    ensures
        o == spec_outcome(already, approvals_now as int, executed),
{
    if already {
        Outcome::AlreadyApproved { approvals_now, executed }
    } else {
        Outcome::Approved { approvals_now, executed }
    }
}

} // verus!
