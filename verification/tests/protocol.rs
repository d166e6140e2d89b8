use multisig::config::MultisigConfig;
use multisig::engine::{approve_proposal, submit_proposal, ProposalAction};
use multisig::errors::{MultisigError, Outcome};
use multisig::identity::{Caller, Identity};
use multisig::proposal::{Proposal, PROPOSAL_SIZE};
use multisig::record::{RecordWriter, RECORD_HEADER_SIZE, RECORD_VERSION, WRITE_TAG};

fn id(n: u64) -> Identity {
    Identity::new(n, 1, 2, 3)
}

fn signer(n: u64) -> Caller {
    Caller { identity: id(n), authenticated: true }
}

/// A write request payload: tag, offset, length, then the data bytes.
fn write_request(offset: u64, data: &[u8]) -> Vec<u8> {
    let mut payload = vec![WRITE_TAG];
    payload.extend_from_slice(&offset.to_le_bytes());
    payload.extend_from_slice(&(data.len() as u32).to_le_bytes());
    payload.extend_from_slice(data);
    payload
}

/// A record buffer of `total` bytes owned by `authority`.
fn record_buffer(total: usize, authority: Identity) -> Vec<u8> {
    let mut record = vec![0u8; total];
    record[0] = RECORD_VERSION;
    record[1..RECORD_HEADER_SIZE].copy_from_slice(&authority.to_le_bytes());
    record
}

/// An action that counts invocations and can be told to fail.
struct CountingAction {
    writer: RecordWriter,
    invocations: usize,
    fail: bool,
}

impl ProposalAction for CountingAction {
    fn execute(
        &mut self,
        payload: &[u8],
        target: Identity,
        authority: Identity,
    ) -> Result<(), MultisigError> {
        self.invocations += 1;
        if self.fail {
            return Err(MultisigError::ActionFailed);
        }
        self.writer.execute(payload, target, authority)
    }
}

struct Setup {
    config_bytes: Vec<u8>,
    config_id: Identity,
    target: Identity,
    buffer: Vec<u8>,
    payload: Vec<u8>,
    action: CountingAction,
}

/// Signer set {A, B, C} = {1, 2, 3}, threshold 2, a submitted proposal
/// whose payload writes "hello!" at offset 0 of the record.
fn submitted_setup() -> Setup {
    let config = MultisigConfig::new(2, &[id(1), id(2), id(3)]).unwrap();
    let config_bytes = config.to_bytes();
    let config_id = id(100);
    let target = id(200);
    let payload = write_request(0, b"hello!");
    let mut buffer = vec![0u8; PROPOSAL_SIZE + 100];
    let creator = signer(1);
    submit_proposal(
        &creator,
        target,
        &config_bytes,
        config_id,
        WRITE_TAG,
        &payload,
        &mut buffer,
    )
    .unwrap();
    let action = CountingAction {
        writer: RecordWriter { record: record_buffer(100, config_id) },
        invocations: 0,
        fail: false,
    };
    Setup { config_bytes, config_id, target, buffer, payload, action }
}

fn approve(s: &mut Setup, who: u64) -> Result<Outcome, MultisigError> {
    let caller = signer(who);
    approve_proposal(
        &caller,
        &mut s.buffer,
        s.target,
        &s.config_bytes,
        s.config_id,
        &mut s.action,
    )
}

#[test]
fn submit_writes_record_payload_and_zero_padding() {
    let s = submitted_setup();
    let p = Proposal::from_bytes(&s.buffer).unwrap();
    assert_eq!(p.executed, 0);
    assert_eq!(p.signer_approvals, 0);
    assert_eq!(p.instruction_tag, WRITE_TAG);
    assert_eq!(p.target_identity, s.target);
    assert_eq!(p.authority_identity, s.config_id);
    assert_eq!(&s.buffer[PROPOSAL_SIZE..PROPOSAL_SIZE + s.payload.len()], &s.payload[..]);
    for &b in &s.buffer[PROPOSAL_SIZE + s.payload.len()..] {
        assert_eq!(b, 0);
    }
}

#[test]
fn submit_rejects_bad_inputs_without_writing() {
    let config = MultisigConfig::new(2, &[id(1), id(2)]).unwrap();
    let config_bytes = config.to_bytes();
    let payload = write_request(0, b"hi");

    // Unauthenticated creator.
    let mut buffer = vec![7u8; PROPOSAL_SIZE + 50];
    let unsigned = Caller { identity: id(1), authenticated: false };
    assert_eq!(
        submit_proposal(&unsigned, id(200), &config_bytes, id(100), WRITE_TAG, &payload, &mut buffer)
            .unwrap_err(),
        MultisigError::MissingSignature
    );
    assert_eq!(buffer, vec![7u8; PROPOSAL_SIZE + 50]);

    // Config record too small.
    assert_eq!(
        submit_proposal(&signer(1), id(200), &config_bytes[..5], id(100), WRITE_TAG, &payload, &mut buffer)
            .unwrap_err(),
        MultisigError::CorruptRecord
    );

    // Buffer too small for record plus payload.
    let mut tiny = vec![0u8; PROPOSAL_SIZE + 1];
    assert_eq!(
        submit_proposal(&signer(1), id(200), &config_bytes, id(100), WRITE_TAG, &payload, &mut tiny)
            .unwrap_err(),
        MultisigError::CorruptRecord
    );
}

#[test]
fn submit_replaces_stale_buffer_contents() {
    let config = MultisigConfig::new(1, &[id(1)]).unwrap();
    let config_bytes = config.to_bytes();
    let payload = write_request(0, b"fresh");
    let mut buffer = vec![0xAAu8; PROPOSAL_SIZE + 40];
    submit_proposal(&signer(1), id(200), &config_bytes, id(100), WRITE_TAG, &payload, &mut buffer)
        .unwrap();
    assert_eq!(&buffer[PROPOSAL_SIZE..PROPOSAL_SIZE + payload.len()], &payload[..]);
    // The spare capacity is zeroed, so no stale byte can shift the digest.
    for &b in &buffer[PROPOSAL_SIZE + payload.len()..] {
        assert_eq!(b, 0);
    }
}

#[test]
fn scenario_two_of_three_approvals_execute_once() {
    // Scenario: signer set {A,B,C}, threshold 2, payload "hello!".
    let mut s = submitted_setup();

    // A approves: recorded, action not yet invoked.
    let first = approve(&mut s, 1).unwrap();
    assert_eq!(first, Outcome::Approved { approvals_now: 1, executed: false });
    assert_eq!(s.action.invocations, 0);
    assert_eq!(Proposal::from_bytes(&s.buffer).unwrap().executed, 0);

    // B approves: threshold crossed, action invoked exactly once, sealed.
    let second = approve(&mut s, 2).unwrap();
    assert_eq!(second, Outcome::Approved { approvals_now: 2, executed: true });
    assert_eq!(s.action.invocations, 1);
    let p = Proposal::from_bytes(&s.buffer).unwrap();
    assert_eq!(p.executed, 1);
    assert_eq!(p.approval_count(), 2);
    let written = &s.action.writer.record[RECORD_HEADER_SIZE..RECORD_HEADER_SIZE + 6];
    assert_eq!(written, b"hello!");

    // C afterward: rejected, nothing invoked again, nothing changed.
    let before = s.buffer.clone();
    assert_eq!(approve(&mut s, 3).unwrap_err(), MultisigError::AlreadyExecuted);
    assert_eq!(s.action.invocations, 1);
    assert_eq!(s.buffer, before);
}

#[test]
fn scenario_non_signer_is_rejected_without_mutation() {
    let mut s = submitted_setup();
    let before = s.buffer.clone();
    assert_eq!(approve(&mut s, 4).unwrap_err(), MultisigError::NotASigner);
    assert_eq!(s.buffer, before);
    assert_eq!(s.action.invocations, 0);
}

#[test]
fn scenario_unauthenticated_signer_is_rejected() {
    let mut s = submitted_setup();
    let before = s.buffer.clone();
    let unsigned = Caller { identity: id(1), authenticated: false };
    let r = approve_proposal(
        &unsigned,
        &mut s.buffer,
        s.target,
        &s.config_bytes,
        s.config_id,
        &mut s.action,
    );
    assert_eq!(r.unwrap_err(), MultisigError::MissingSignature);
    assert_eq!(s.buffer, before);
}

#[test]
fn scenario_double_approval_is_an_idempotent_no_op() {
    let mut s = submitted_setup();
    let first = approve(&mut s, 1).unwrap();
    assert_eq!(first, Outcome::Approved { approvals_now: 1, executed: false });
    // Same signer again: popcount unchanged, no error, no action.
    let second = approve(&mut s, 1).unwrap();
    assert_eq!(second, Outcome::AlreadyApproved { approvals_now: 1, executed: false });
    assert_eq!(Proposal::from_bytes(&s.buffer).unwrap().approval_count(), 1);
    assert_eq!(s.action.invocations, 0);
}

#[test]
fn scenario_tampered_payload_is_rejected_at_approval() {
    let mut s = submitted_setup();
    approve(&mut s, 1).unwrap();
    // Flip one stored payload byte between submission and the
    // threshold-crossing approval.
    s.buffer[PROPOSAL_SIZE + 13] ^= 0x01;
    let before = s.buffer.clone();
    assert_eq!(approve(&mut s, 2).unwrap_err(), MultisigError::DigestMismatch);
    assert_eq!(s.buffer, before);
    assert_eq!(s.action.invocations, 0);
    assert_eq!(Proposal::from_bytes(&s.buffer).unwrap().approval_count(), 1);
}

#[test]
fn scenario_mismatched_config_or_target_is_rejected() {
    let mut s = submitted_setup();
    let before = s.buffer.clone();
    let caller = signer(1);
    let r = approve_proposal(
        &caller,
        &mut s.buffer,
        s.target,
        &s.config_bytes,
        id(101), // not the bound config identity
        &mut s.action,
    );
    assert_eq!(r.unwrap_err(), MultisigError::AuthorityMismatch);
    let r = approve_proposal(
        &caller,
        &mut s.buffer,
        id(201), // not the bound target
        &s.config_bytes,
        s.config_id,
        &mut s.action,
    );
    assert_eq!(r.unwrap_err(), MultisigError::AuthorityMismatch);
    assert_eq!(s.buffer, before);
}

#[test]
fn scenario_action_failure_keeps_quorum_and_allows_retry() {
    let mut s = submitted_setup();
    s.action.fail = true;
    approve(&mut s, 1).unwrap();

    // The threshold-crossing approval runs the action, which fails: the
    // approval stays recorded, the record stays pending.
    assert_eq!(approve(&mut s, 2).unwrap_err(), MultisigError::ActionFailed);
    assert_eq!(s.action.invocations, 1);
    let p = Proposal::from_bytes(&s.buffer).unwrap();
    assert_eq!(p.executed, 0);
    assert_eq!(p.approval_count(), 2);

    // A retry by an already-approved signer attempts the action again;
    // once it succeeds the record is sealed.
    s.action.fail = false;
    let retry = approve(&mut s, 2).unwrap();
    assert_eq!(retry, Outcome::AlreadyApproved { approvals_now: 2, executed: true });
    assert_eq!(s.action.invocations, 2);
    let p = Proposal::from_bytes(&s.buffer).unwrap();
    assert_eq!(p.executed, 1);
    assert_eq!(p.approval_count(), 2);
    assert_eq!(
        &s.action.writer.record[RECORD_HEADER_SIZE..RECORD_HEADER_SIZE + 6],
        b"hello!"
    );
}

#[test]
fn approve_rejects_short_proposal_buffer() {
    let s = submitted_setup();
    let mut short = s.buffer[..PROPOSAL_SIZE - 1].to_vec();
    let caller = signer(1);
    let mut action = CountingAction {
        writer: RecordWriter { record: record_buffer(100, s.config_id) },
        invocations: 0,
        fail: false,
    };
    let r = approve_proposal(
        &caller,
        &mut short,
        s.target,
        &s.config_bytes,
        s.config_id,
        &mut action,
    );
    assert_eq!(r.unwrap_err(), MultisigError::CorruptRecord);
}

#[test]
fn approve_rejects_invalid_config_record() {
    let mut s = submitted_setup();
    let mut bad = s.config_bytes.clone();
    bad[1] = 0; // zero threshold
    let caller = signer(1);
    let r = approve_proposal(
        &caller,
        &mut s.buffer,
        s.target,
        &bad,
        s.config_id,
        &mut s.action,
    );
    assert_eq!(r.unwrap_err(), MultisigError::InvalidConfig);
}

/// The end-to-end flow of the embedding program's own test: a threshold-2
/// signer group gates a write of "hello!" into a 100-byte record account,
/// and the second approval executes it.
#[test]
fn test_multisig_write_approval_execution() {
    let mut s = submitted_setup();
    approve(&mut s, 1).unwrap();
    approve(&mut s, 2).unwrap();
    let record = &s.action.writer.record;
    assert_eq!(&record[33..33 + 6], b"hello!");
}
