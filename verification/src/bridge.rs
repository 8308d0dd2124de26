//! Bridge verification service and validator registry.
//!
//! The registry is a single slot holding the currently trusted reporter
//! identity: absent at genesis, fully replaced by each privileged set, never
//! deleted. The pipeline decodes a submitted proof, re-encodes its record to
//! recover the exact signed message, hashes it, recovers the signer's
//! identity, and reads the registry; it reports facts — the payload and both
//! identities — and leaves the equality policy to the caller.
//!
//! Callers are authenticated and notifications are delivered by the
//! surrounding ledger; methods here take the authenticated caller as a plain
//! value and return the notification to publish.

use vstd::prelude::*;

use crate::codec::bytes_range;
use crate::codec::decode_proof;
use crate::codec::encode_result;
use crate::codec::spec_decode_proof;
use crate::codec::spec_encode_result;
use crate::crypto::keccak_256;
use crate::crypto::keccak_of;
use crate::crypto::recover_identity;
use crate::crypto::spec_recover_identity;

verus! {

/// Notifications the bridge hands back to the surrounding ledger.
#[derive(Clone, Debug, PartialEq, Eq)]
pub enum BridgeEvent {
    /// The trusted identity was replaced: the new value and who set it.
    ValidatorChanged { new: Vec<u8>, caller: u64 },
    /// A proof passed the pipeline: its payload, the identity recovered from
    /// the signature, and the currently trusted identity.
    ProofVerified { data: Vec<u8>, recovered_identity: Vec<u8>, trusted_identity: Vec<u8> },
    /// The proof did not decode, its signature did not recover, or no
    /// trusted identity is configured.
    ProofRejected,
}

/// The single-slot registry of the trusted reporter identity, together with
/// the verification pipeline that reads it.
pub struct Bridge {
    /// Absent at genesis; fully replaced by each `set_validator`.
    pub validator: Option<Vec<u8>>,
}

/// What the full pipeline yields on `proof` with registry state `validator`:
/// decode the envelope, re-encode its record to the canonical signed
/// message, hash it, recover the signer's identity, read the registry.
/// `None` on any failure.
pub open spec fn spec_verification(validator: Option<Vec<u8>>, proof: Seq<u8>) -> Option<
    (Seq<u8>, Seq<u8>, Seq<u8>),
> {
    match spec_decode_proof(proof) {
        Ok(p) => match spec_recover_identity(
            p.signature,
            keccak_of(spec_encode_result(p.result)),
        ) {
            Some(id) => match validator {
                Some(v) => Some((p.result.data, id, v@)),
                None => None,
            },
            None => None,
        },
        Err(_) => None,
    }
}

impl Bridge {
    /// A bridge with no trusted identity configured yet.
    pub fn new() -> (b: Bridge)
        ensures
            b.validator is None,
    {
        Bridge { validator: None }
    }

    /// The currently trusted identity, if one was ever set.
    pub fn get_validator(&self) -> (r: &Option<Vec<u8>>)
        ensures
            r == &self.validator,
    {
        &self.validator
    }

    /// Fully replaces the trusted identity — no history, last write wins —
    /// and returns the notification for the ledger to publish. The caller
    /// was authenticated by the surrounding ledger before this is invoked.
    pub fn set_validator(&mut self, caller: u64, validator: Vec<u8>) -> (ev: BridgeEvent)
        ensures
            final(self).validator == Some(validator),
            ev matches BridgeEvent::ValidatorChanged { new, caller: c } && new@ == validator@
                && c == caller,
    {
        let copy = bytes_range(&validator, 0, validator.len());
        proof {
            assert(copy@ =~= validator@);
        }
        self.validator = Some(validator);
        BridgeEvent::ValidatorChanged { new: copy, caller }
    }

    /// Degraded extraction used by the as-found price wiring: the trailing
    /// 8 bytes of the raw input, with no cryptographic check at all. The
    /// checked pipeline is `test_signature_verification`.
    pub fn verify_proof(band_proof: Vec<u8>) -> (r: Option<Vec<u8>>)
        ensures
            match r {
                Some(v) => band_proof@.len() >= 8 && v@ == band_proof@.subrange(
                    band_proof@.len() - 8,
                    band_proof@.len() as int,
                ),
                None => band_proof@.len() < 8,
            },
    {
        if band_proof.len() < 8 {
            None
        } else {
            Some(bytes_range(&band_proof, band_proof.len() - 8, band_proof.len()))
        }
    }

    /// The full pipeline on a submitted proof. On success it returns the
    /// payload, the recovered identity and the trusted identity; comparing
    /// the two identities is the caller's policy decision.
    pub fn test_signature_verification(&self, band_proof: Vec<u8>) -> (r: Option<
        (Vec<u8>, Vec<u8>, Vec<u8>),
    >)
        ensures
            match r {
                Some(t) => spec_verification(self.validator, band_proof@) == Some(
                    (t.0@, t.1@, t.2@),
                ),
                None => spec_verification(self.validator, band_proof@) is None,
            },
    {
        let bp = match decode_proof(&band_proof) {
            Ok(bp) => bp,
            Err(_) => { return None },
        };
        let result_bytes = encode_result(&bp.result);
        let hash_of_result = keccak_256(&result_bytes);
        let recovered = match recover_identity(&bp.signature, &hash_of_result) {
            Some(id) => id,
            None => { return None },
        };
        match &self.validator {
            Some(v) => {
                let trusted = bytes_range(v, 0, v.len());
                proof {
                    assert(trusted@ =~= v@);
                }
                Some((bp.result.data, recovered, trusted))
            },
            None => None,
        }
    }

    /// Diagnostic entry point: runs the pipeline and reports the outcome as
    /// a notification; mutates nothing.
    pub fn verify_proof_debug(&self, proof: Vec<u8>) -> (ev: BridgeEvent)
        ensures
            match ev {
                BridgeEvent::ProofVerified { data, recovered_identity, trusted_identity } =>
                    spec_verification(self.validator, proof@) == Some(
                    (data@, recovered_identity@, trusted_identity@),
                ),
                BridgeEvent::ProofRejected => spec_verification(self.validator, proof@) is None,
                BridgeEvent::ValidatorChanged { new: _, caller: _ } => false,
            },
    {
        match self.test_signature_verification(proof) {
            Some((data, recovered_identity, trusted_identity)) => BridgeEvent::ProofVerified {
                data,
                recovered_identity,
                trusted_identity,
            },
            None => BridgeEvent::ProofRejected,
        }
    }
}

} // verus!
