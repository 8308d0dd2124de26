//! Signature verifier: Keccak-256 hashing, secp256k1 public-key recovery,
//! and address-style identity derivation (the last 20 bytes of the hashed
//! public key).
//!
//! The two cryptographic primitives are supplied by outside crates and are
//! trusted; everything around them — recovery-id normalisation, length
//! checks, identity derivation — is verified.

use vstd::prelude::*;

use crate::codec::bytes_range;

verus! {

/// What Keccak-256 returns on a byte sequence: a function of the input bytes
/// alone.
pub uninterp spec fn keccak_of(s: Seq<u8>) -> Seq<u8>;

/// What secp256k1 public-key recovery returns for a 64-byte `r || s`
/// signature, a recovery id and a 32-byte message hash: a function of the
/// arguments alone; `None` where the signature is malformed or off the curve
/// or the recovery id is out of range.
pub uninterp spec fn recover_of(rs: Seq<u8>, rid: u8, msg: Seq<u8>) -> Option<Seq<u8>>;

/// Relies on `sha3::Keccak256` through the `Digest` trait: the 32-byte
/// Keccak-256 digest of the input, depending on the input bytes alone.
#[verifier::external_body]
pub(crate) fn keccak_256(data: &Vec<u8>) -> (r: Vec<u8>)
    ensures
        r@ == keccak_of(data@),
        r@.len() == 32,
{
    <sha3::Keccak256 as sha3::Digest>::digest(data.as_slice()).to_vec()
}

/// Relies on `libsecp256k1`: `Signature::parse_standard_slice` (fails unless
/// `rs` is 64 bytes with both scalars below the curve order),
/// `RecoveryId::parse` (fails for an id of 4 or more), `Message::parse` and
/// `recover` (fails when no curve point matches), and
/// `PublicKey::serialize`, whose leading constant 0x04 tag byte is dropped
/// to leave the 64-byte uncompressed key. Recovery is deterministic in its
/// arguments.
#[verifier::external_body]
pub(crate) fn secp256k1_recover(rs: &Vec<u8>, rid: u8, msg: &Vec<u8>) -> (r: Option<Vec<u8>>)
    requires
        msg@.len() == 32,
    ensures
        match r {
            Some(pk) => recover_of(rs@, rid, msg@) == Some(pk@) && pk@.len() == 64,
            None => recover_of(rs@, rid, msg@) is None,
        },
{
    let sig = libsecp256k1::Signature::parse_standard_slice(rs).ok()?;
    let rec_id = libsecp256k1::RecoveryId::parse(rid).ok()?;
    let mut m = [0u8; 32];
    m.copy_from_slice(msg);
    let pk = libsecp256k1::recover(&libsecp256k1::Message::parse(&m), &sig, &rec_id).ok()?;
    Some(pk.serialize()[1..].to_vec())
}

/// A recovery-id byte in Ethereum RPC convention (27 or above) is shifted
/// down to the raw range; anything else is passed through.
pub open spec fn spec_rid(b: u8) -> u8 {
    if b > 26 {
        (b - 27) as u8
    } else {
        b
    }
}

/// The 20-byte identity of a public key: the last 20 of the 32 bytes of its
/// Keccak-256 digest.
pub open spec fn spec_identity_of_pubkey(pk: Seq<u8>) -> Seq<u8> {
    keccak_of(pk).subrange(12, 32)
}

/// The identity recovered from a 65-byte signature and a message hash, if
/// recovery succeeds.
pub open spec fn spec_recover_identity(sig: Seq<u8>, msg: Seq<u8>) -> Option<Seq<u8>>
    recommends
        sig.len() == 65,
{
    match recover_of(sig.subrange(0, 64), spec_rid(sig[64]), msg) {
        Some(pk) => Some(spec_identity_of_pubkey(pk)),
        None => None,
    }
}

/// Address-style identity derivation from a recovered public key.
pub fn derive_identity(pubkey: &Vec<u8>) -> (id: Vec<u8>)
    ensures
        id@ == spec_identity_of_pubkey(pubkey@),
        id@.len() == 20,
{
    let h = keccak_256(pubkey);
    bytes_range(&h, 12, 32)
}

/// Recovers the reporter's identity from a 65-byte recoverable signature and
/// a 32-byte message hash. Fails — rather than aborting — on a signature of
/// the wrong length, a recovery id out of range, or a signature that lies
/// off the curve.
pub fn recover_identity(sig: &Vec<u8>, msg_hash: &Vec<u8>) -> (r: Option<Vec<u8>>)
    requires
        msg_hash@.len() == 32,
    ensures
        match r {
            Some(id) => sig@.len() == 65 && spec_recover_identity(sig@, msg_hash@) == Some(id@)
                && id@.len() == 20,
            None => sig@.len() != 65 || spec_recover_identity(sig@, msg_hash@) is None,
        },
{
    if sig.len() != 65 {
        return None;
    }
    let rid_byte = sig[64];
    let rid = if rid_byte > 26 {
        rid_byte - 27
    } else {
        rid_byte
    };
    let rs = bytes_range(sig, 0, 64);
    match secp256k1_recover(&rs, rid, msg_hash) {
        Some(pk) => Some(derive_identity(&pk)),
        None => None,
    }
}

} // verus!
