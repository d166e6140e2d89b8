//! An m-of-n threshold-authorization engine.
//!
//! A fixed set of designated signers gates a privileged action: a proposal
//! records the action's payload digest and collects approvals as a bitmask,
//! and an injected action callback runs exactly when the approval count first
//! reaches the configured threshold. All persisted state lives in packed,
//! fixed-layout byte records so that it can be recovered by re-parsing a raw
//! buffer.

pub mod bits;
pub mod config;
pub mod digest;
pub mod engine;
pub mod errors;
pub mod identity;
pub mod laws;
pub mod proposal;
pub mod record;

use vstd::prelude::*;

verus! {

use crate::config::CONFIG_SIZE;
use crate::config::MultisigConfig;
use crate::config::distinct_qualifying;
use crate::config::spec_decode_config;
use crate::errors::MultisigError;
use crate::identity::Caller;

/// The single-call verification mode at the storage boundary: parse and
/// validate the signer-set record, then require enough distinct
/// authenticated signers among the presented callers.
pub fn verify_signatures(config_data: &[u8], signer_infos: &[Caller]) -> (r: Result<
    (),
    MultisigError,
>)
    ensures
        r is Ok <==> (config_data@.len() >= CONFIG_SIZE as int && spec_decode_config(
            config_data@,
        ).valid() && distinct_qualifying(
            spec_decode_config(config_data@),
            signer_infos@,
            signer_infos@.len() as int,
        ) >= spec_decode_config(config_data@).threshold as int),
        r is Err ==> (match r {
            Err(e) => {
                &&& (e == MultisigError::CorruptRecord <==> config_data@.len() < CONFIG_SIZE as int)
                &&& (config_data@.len() >= CONFIG_SIZE as int && !spec_decode_config(
                    config_data@,
                ).valid() ==> e == MultisigError::InvalidConfig)
                &&& (config_data@.len() >= CONFIG_SIZE as int && spec_decode_config(
                    config_data@,
                ).valid() ==> e == MultisigError::ThresholdNotMet)
            },
            Ok(_) => true,
        }),
{
    let multisig = match MultisigConfig::from_bytes(config_data) {
        Ok(c) => c,
        Err(e) => {
            return Err(e);
        },
    };
    multisig.verify_signatures(signer_infos)
}

} // verus!
