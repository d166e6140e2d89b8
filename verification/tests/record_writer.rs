use multisig::errors::MultisigError;
use multisig::identity::Identity;
use multisig::record::{
    apply_record_write, parse_write_request, RECORD_HEADER_SIZE, RECORD_VERSION, WRITE_TAG,
};

fn id(n: u64) -> Identity {
    Identity::new(n, 0, n, 0)
}

fn write_request(offset: u64, data: &[u8]) -> Vec<u8> {
    let mut payload = vec![WRITE_TAG];
    payload.extend_from_slice(&offset.to_le_bytes());
    payload.extend_from_slice(&(data.len() as u32).to_le_bytes());
    payload.extend_from_slice(data);
    payload
}

fn record_buffer(total: usize, authority: Identity) -> Vec<u8> {
    let mut record = vec![0u8; total];
    record[0] = RECORD_VERSION;
    record[1..RECORD_HEADER_SIZE].copy_from_slice(&authority.to_le_bytes());
    record
}

#[test]
fn parse_write_request_reads_offset_length_and_data() {
    let payload = write_request(7, b"abc");
    let (offset, data) = parse_write_request(&payload).unwrap();
    assert_eq!(offset, 7);
    assert_eq!(data, b"abc".to_vec());
}

#[test]
fn parse_write_request_rejects_malformed_payloads() {
    // Too short for the fixed header.
    assert_eq!(
        parse_write_request(&[WRITE_TAG; 12]).unwrap_err(),
        MultisigError::CorruptRecord
    );
    // Wrong tag.
    let mut wrong_tag = write_request(0, b"abc");
    wrong_tag[0] = WRITE_TAG + 1;
    assert_eq!(
        parse_write_request(&wrong_tag).unwrap_err(),
        MultisigError::CorruptRecord
    );
    // Declared length exceeds what follows.
    let mut truncated = write_request(0, b"abc");
    truncated.pop();
    assert_eq!(
        parse_write_request(&truncated).unwrap_err(),
        MultisigError::CorruptRecord
    );
}

#[test]
fn apply_record_write_writes_the_requested_range() {
    let authority = id(9);
    let mut record = record_buffer(50, authority);
    let payload = write_request(4, b"data");
    apply_record_write(&mut record, &payload, authority).unwrap();
    assert_eq!(&record[RECORD_HEADER_SIZE + 4..RECORD_HEADER_SIZE + 8], b"data");
    // Everything around the range is untouched.
    for k in RECORD_HEADER_SIZE..RECORD_HEADER_SIZE + 4 {
        assert_eq!(record[k], 0);
    }
    for k in RECORD_HEADER_SIZE + 8..50 {
        assert_eq!(record[k], 0);
    }
    assert_eq!(record[0], RECORD_VERSION);
}

#[test]
fn apply_record_write_rejects_out_of_bounds_ranges() {
    let authority = id(9);
    let mut record = record_buffer(40, authority);
    let before = record.clone();
    // 33 + 4 + 4 > 40
    let payload = write_request(4, b"data");
    assert_eq!(
        apply_record_write(&mut record, &payload, authority).unwrap_err(),
        MultisigError::CorruptRecord
    );
    // A huge offset must not wrap around.
    let wrapping = write_request(u64::MAX - 2, b"data");
    assert_eq!(
        apply_record_write(&mut record, &wrapping, authority).unwrap_err(),
        MultisigError::CorruptRecord
    );
    assert_eq!(record, before);
}

#[test]
fn apply_record_write_rejects_foreign_or_uninitialized_records() {
    let authority = id(9);
    let payload = write_request(0, b"x");

    let mut foreign = record_buffer(40, id(8));
    let before = foreign.clone();
    assert_eq!(
        apply_record_write(&mut foreign, &payload, authority).unwrap_err(),
        MultisigError::AuthorityMismatch
    );
    assert_eq!(foreign, before);

    let mut uninitialized = record_buffer(40, authority);
    uninitialized[0] = 0;
    assert_eq!(
        apply_record_write(&mut uninitialized, &payload, authority).unwrap_err(),
        MultisigError::CorruptRecord
    );

    let mut tiny = vec![RECORD_VERSION; 10];
    assert_eq!(
        apply_record_write(&mut tiny, &payload, authority).unwrap_err(),
        MultisigError::CorruptRecord
    );
}
