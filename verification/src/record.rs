//! The gated action of the embedding program: a bounded byte-range write
//! into a versioned, authority-owned record buffer.
//!
//! A record buffer starts with a 33-byte header (version byte, then the
//! 32-byte identity of the authority allowed to write) and is writable
//! after it. The proposal payload carries a write request: a tag byte, a
//! 64-bit offset, a 32-bit length, then the bytes to write at that offset
//! of the writable region.
use vstd::prelude::*;

verus! {

use crate::engine::ProposalAction;
use crate::errors::MultisigError;
use crate::identity::Identity;
use vstd::bytes::spec_u32_from_le_bytes;
use vstd::bytes::spec_u64_from_le_bytes;
use vstd::bytes::u32_from_le_bytes;
use vstd::bytes::u64_from_le_bytes;
use vstd::slice::slice_index_get;
use vstd::slice::slice_subrange;
use vstd::slice::slice_to_vec;

/// Version byte an initialized record header carries.
pub const RECORD_VERSION: u8 = 1;

/// Header size: one version byte and a 32-byte authority identity; the
/// writable region starts here.
pub const RECORD_HEADER_SIZE: usize = 33;

/// Payload tag selecting the bounded write request.
pub const WRITE_TAG: u8 = 5;

/// Size of the fixed part of a write request: tag, offset, length.
pub const WRITE_REQUEST_HEADER_SIZE: usize = 13;

/// The write request a payload carries: `(offset, data)`, or nothing if
/// the payload is not a well-formed request.
pub open spec fn spec_parse_write_request(payload: Seq<u8>) -> Option<(u64, Seq<u8>)> {
    if payload.len() < WRITE_REQUEST_HEADER_SIZE as int {
        None
    } else if payload[0] != WRITE_TAG {
        None
    } else {
        let offset = spec_u64_from_le_bytes(payload.subrange(1, 9));
        let dlen = spec_u32_from_le_bytes(payload.subrange(9, 13));
        if WRITE_REQUEST_HEADER_SIZE as int + dlen as int > payload.len() {
            None
        } else {
            Some((offset, payload.subrange(13, 13 + dlen as int)))
        }
    }
}

/// Parse a write request from a proposal payload.
pub fn parse_write_request(payload: &[u8]) -> (r: Result<(u64, Vec<u8>), MultisigError>)
    ensures
        match spec_parse_write_request(payload@) {
            Some(req) => r is Ok && (r matches Ok((off, data)) ==> off == req.0 && data@ == req.1),
            None => r == Err::<(u64, Vec<u8>), MultisigError>(MultisigError::CorruptRecord),
        },
{
    if payload.len() < WRITE_REQUEST_HEADER_SIZE {
        return Err(MultisigError::CorruptRecord);
    }
    if *slice_index_get(payload, 0) != WRITE_TAG {
        return Err(MultisigError::CorruptRecord);
    }
    let offset = u64_from_le_bytes(slice_subrange(payload, 1, 9));
    let dlen = u32_from_le_bytes(slice_subrange(payload, 9, 13));
    if dlen as usize > payload.len() - WRITE_REQUEST_HEADER_SIZE {
        return Err(MultisigError::CorruptRecord);
    }
    let data = slice_to_vec(
        slice_subrange(payload, WRITE_REQUEST_HEADER_SIZE, WRITE_REQUEST_HEADER_SIZE
            + dlen as usize),
    );
    Ok((offset, data))
}

/// Whether the record header is initialized and owned by `authority`.
pub open spec fn spec_record_owned(rec: Seq<u8>, authority: Identity) -> bool {
    &&& rec.len() >= RECORD_HEADER_SIZE as int
    &&& rec[0] == RECORD_VERSION
    &&& Identity::decoded(rec.subrange(1, 33)) == authority
}

/// `rec` with `data` written at `start`.
pub open spec fn spec_spliced(rec: Seq<u8>, start: int, data: Seq<u8>) -> Seq<u8> {
    rec.take(start) + data + rec.skip(start + data.len())
}

/// What a write request does to a record buffer, in the order the checks
/// run: parse the request, bound the range, demand an initialized header
/// owned by the presented authority, then splice the bytes in.
pub open spec fn spec_record_write(rec: Seq<u8>, payload: Seq<u8>, authority: Identity) -> Result<
    Seq<u8>,
    MultisigError,
> {
    match spec_parse_write_request(payload) {
        None => Err(MultisigError::CorruptRecord),
        Some((offset, data)) => {
            let start = RECORD_HEADER_SIZE as int + offset as int;
            if start + data.len() > rec.len() {
                Err(MultisigError::CorruptRecord)
            } else if !(rec[0] == RECORD_VERSION) {
                Err(MultisigError::CorruptRecord)
            } else if Identity::decoded(rec.subrange(1, 33)) != authority {
                Err(MultisigError::AuthorityMismatch)
            } else {
                Ok(spec_spliced(rec, start, data))
            }
        },
    }
}

/// Apply a payload's write request to a record buffer. On any rejection
/// the buffer is left untouched; on success exactly the requested range
/// holds the new bytes.
pub fn apply_record_write(record: &mut Vec<u8>, payload: &[u8], authority: Identity) -> (r: Result<
    (),
    MultisigError,
>)
    ensures
        final(record)@.len() == old(record)@.len(),
        match spec_record_write(old(record)@, payload@, authority) {
            Ok(rec1) => r == Ok::<(), MultisigError>(()) && final(record)@ == rec1,
            Err(e) => r == Err::<(), MultisigError>(e) && final(record)@ == old(record)@,
        },
{
    let (offset, data) = match parse_write_request(payload) {
        Ok(req) => req,
        Err(e) => {
            return Err(e);
        },
    };
    let rec_len = record.len();
    let end: u128 = RECORD_HEADER_SIZE as u128 + offset as u128 + data.len() as u128;
    if end > rec_len as u128 {
        return Err(MultisigError::CorruptRecord);
    }
    let start: usize = RECORD_HEADER_SIZE + offset as usize;
    if *slice_index_get(record.as_slice(), 0) != RECORD_VERSION {
        return Err(MultisigError::CorruptRecord);
    }
    let header_authority = Identity::from_le_bytes(
        slice_subrange(record.as_slice(), 1, RECORD_HEADER_SIZE),
    );
    if header_authority != authority {
        return Err(MultisigError::AuthorityMismatch);
    }
    let n = data.len();
    let mut i: usize = 0;
    while i < n
        invariant
            n == data@.len(),
            start + n <= rec_len,
            rec_len == record@.len() == old(record)@.len(),
            i <= n,
            forall|j: int| 0 <= j < start as int ==> record@[j] == old(record)@[j],
            forall|j: int|
                start as int <= j < start as int + i as int ==> record@[j] == data@[j
                    - start as int],
            forall|j: int|
                start as int + i as int <= j < rec_len as int ==> record@[j] == old(record)@[j],
        decreases n - i,
    {
        record.set(start + i, data[i]);
        i = i + 1;
    }
    proof {
        assert(final(record)@ =~= spec_spliced(old(record)@, start as int, data@));
    }
    Ok(())
}

/// An in-memory record buffer standing as the target of the gated action.
pub struct RecordWriter {
    /// The record's bytes: header, then the writable region.
    pub record: Vec<u8>,
}

impl ProposalAction for RecordWriter {
    /// The bounded byte-range write, against the owned record buffer.
    fn execute(&mut self, payload: &[u8], target: Identity, authority: Identity) -> (r: Result<
        (),
        MultisigError,
    >)
        ensures
            match spec_record_write(old(self).record@, payload@, authority) {
                Ok(rec1) => r == Ok::<(), MultisigError>(()) && final(self).record@ == rec1,
                Err(e) => r == Err::<(), MultisigError>(e) && final(self).record@ == old(
                    self,
                ).record@,
            },
    {
        apply_record_write(&mut self.record, payload, authority)
    }
}

} // verus!
