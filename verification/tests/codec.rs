use multisig::config::{MultisigConfig, CONFIG_SIZE, CONFIG_VERSION, MAX_SIGNERS};
use multisig::errors::MultisigError;
use multisig::identity::Identity;
use multisig::proposal::{Proposal, PROPOSAL_SIZE, PROPOSAL_VERSION};

fn id(n: u64) -> Identity {
    Identity::new(n, n.wrapping_mul(7), n ^ 0xff, n + 3)
}

#[test]
fn identity_bytes_round_trip() {
    let a = id(42);
    let bytes = a.to_le_bytes();
    assert_eq!(bytes.len(), 32);
    let back = Identity::from_le_bytes(&bytes);
    assert_eq!(back, a);
}

#[test]
fn identity_bytes_are_little_endian_words() {
    let a = Identity::new(1, 0, 0, 0);
    let bytes = a.to_le_bytes();
    assert_eq!(bytes[0], 1);
    for k in 1..32 {
        assert_eq!(bytes[k], 0);
    }
}

#[test]
fn proposal_encode_decode_round_trip() {
    let mut p = Proposal::new(7, id(1), id(2), b"payload");
    p.approve(0);
    p.approve(3);
    let bytes = p.to_bytes();
    assert_eq!(bytes.len(), PROPOSAL_SIZE);
    let q = Proposal::from_bytes(&bytes).unwrap();
    assert_eq!(q.version, p.version);
    assert_eq!(q.executed, p.executed);
    assert_eq!(q.instruction_tag, p.instruction_tag);
    assert_eq!(q.signer_approvals, p.signer_approvals);
    assert_eq!(q.target_identity, p.target_identity);
    assert_eq!(q.authority_identity, p.authority_identity);
    assert_eq!(q.payload_digest, p.payload_digest);
}

#[test]
fn proposal_wire_layout_is_packed_little_endian() {
    let mut p = Proposal::new(9, id(1), id(2), b"x");
    p.approve(0);
    p.approve(1);
    p.approve(8);
    let bytes = p.to_bytes();
    assert_eq!(bytes[0], PROPOSAL_VERSION);
    assert_eq!(bytes[1], 0); // executed
    assert_eq!(bytes[2], 9); // instruction tag
    // mask 0b1_0000_0011 = 259 little-endian
    assert_eq!(bytes[3], 3);
    assert_eq!(bytes[4], 1);
    assert_eq!(&bytes[5..37], &id(1).to_le_bytes()[..]);
    assert_eq!(&bytes[37..69], &id(2).to_le_bytes()[..]);
    assert_eq!(&bytes[69..101], &p.payload_digest[..]);
}

#[test]
fn proposal_decode_rejects_short_buffer() {
    let bytes = vec![0u8; PROPOSAL_SIZE - 1];
    assert_eq!(
        Proposal::from_bytes(&bytes).unwrap_err(),
        MultisigError::CorruptRecord
    );
}

#[test]
fn config_encode_decode_round_trip() {
    let signers = [id(10), id(20), id(30)];
    let c = MultisigConfig::new(2, &signers).unwrap();
    let bytes = c.to_bytes();
    assert_eq!(bytes.len(), CONFIG_SIZE);
    assert_eq!(bytes[0], CONFIG_VERSION);
    assert_eq!(bytes[1], 2); // threshold
    assert_eq!(bytes[2], 3); // signer count
    let d = MultisigConfig::from_bytes(&bytes).unwrap();
    assert_eq!(d.version, c.version);
    assert_eq!(d.threshold, c.threshold);
    assert_eq!(d.signer_count, c.signer_count);
    assert_eq!(d.signers, c.signers);
    assert_eq!(d.signers.len(), MAX_SIGNERS);
    assert_eq!(d.signers[3], Identity::new(0, 0, 0, 0));
}

#[test]
fn config_decode_rejects_short_and_invalid_records() {
    let short = vec![0u8; CONFIG_SIZE - 1];
    assert_eq!(
        MultisigConfig::from_bytes(&short).unwrap_err(),
        MultisigError::CorruptRecord
    );

    let c = MultisigConfig::new(2, &[id(1), id(2)]).unwrap();
    let mut wrong_version = c.to_bytes();
    wrong_version[0] = CONFIG_VERSION.wrapping_add(1);
    assert_eq!(
        MultisigConfig::from_bytes(&wrong_version).unwrap_err(),
        MultisigError::InvalidConfig
    );

    let mut zero_threshold = c.to_bytes();
    zero_threshold[1] = 0;
    assert_eq!(
        MultisigConfig::from_bytes(&zero_threshold).unwrap_err(),
        MultisigError::InvalidConfig
    );

    let mut oversized = c.to_bytes();
    oversized[2] = MAX_SIGNERS as u8 + 1;
    assert_eq!(
        MultisigConfig::from_bytes(&oversized).unwrap_err(),
        MultisigError::InvalidConfig
    );
}

#[test]
fn payload_digest_is_keccak_of_trimmed_payload() {
    let p = Proposal::new(5, id(1), id(2), b"hello!");
    let expected = solana_keccak_hasher::hash(b"hello!").to_bytes();
    assert_eq!(&p.payload_digest[..], &expected[..]);

    // Trailing zeros are trimmed before hashing.
    let q = Proposal::new(5, id(1), id(2), b"hello!\0\0\0");
    assert_eq!(&q.payload_digest[..], &expected[..]);

    // An interior zero is not trimmed.
    let r = Proposal::new(5, id(1), id(2), b"hel\0lo!");
    let expected_interior = solana_keccak_hasher::hash(b"hel\0lo!").to_bytes();
    assert_eq!(&r.payload_digest[..], &expected_interior[..]);
    assert_ne!(&r.payload_digest[..], &expected[..]);
}

#[test]
fn verify_payload_round_trip_and_tamper_detection() {
    let p = Proposal::new(5, id(1), id(2), b"hello!");
    assert!(p.is_instruction_data_correct(b"hello!"));
    // Appended or dropped trailing zeros are indistinguishable: the
    // documented boundary case of the trimming convention.
    assert!(p.is_instruction_data_correct(b"hello!\0\0"));
    // Any other byte flip is caught.
    assert!(!p.is_instruction_data_correct(b"hellO!"));
    assert!(!p.is_instruction_data_correct(b"hello"));
    assert!(!p.is_instruction_data_correct(b""));
}
