use band_bridge::bridge::Bridge;
use band_bridge::codec::{encode_result, VerifyOracleDataResult};
use band_bridge::price::{decode_price, PriceEvent, PriceStore, ProjectionError};
use sha3::Digest;

fn price_result(price: u64) -> VerifyOracleDataResult {
    VerifyOracleDataResult {
        oracle_script_id: 12,
        request_time: 100,
        aggregation_time: 105,
        requested_validators_count: 4,
        sufficient_validator_count: 3,
        reported_validators_count: 4,
        params: vec![],
        data: price.to_le_bytes().to_vec(),
    }
}

fn keccak(bytes: &[u8]) -> [u8; 32] {
    let digest = sha3::Keccak256::digest(bytes);
    let mut out = [0u8; 32];
    out.copy_from_slice(&digest);
    out
}

fn signed_proof(result: &VerifyOracleDataResult, seckey: &[u8; 32]) -> (Vec<u8>, Vec<u8>) {
    let encoded = encode_result(result);
    let hash = keccak(&encoded);
    let sk = libsecp256k1::SecretKey::parse(seckey).unwrap();
    let pk = libsecp256k1::PublicKey::from_secret_key(&sk);
    let (sig, rid) = libsecp256k1::sign(&libsecp256k1::Message::parse(&hash), &sk);
    let mut proof = Vec::new();
    proof.extend_from_slice(&sig.serialize());
    proof.push(rid.serialize());
    proof.extend_from_slice(&encoded);
    let identity = keccak(&pk.serialize()[1..])[12..].to_vec();
    (proof, identity)
}

#[test]
fn set_price_stores_and_overwrites() {
    let mut store = PriceStore::new();
    let mut proof = vec![0xEEu8; 5];
    proof.extend_from_slice(&12345u64.to_le_bytes());
    let ev = store.set_price(proof, 7).expect("long enough proof is accepted");
    assert_eq!(ev, PriceEvent::PriceSet { price: 12345, index: 7 });
    assert_eq!(store.simple_map(7), 12345);
    // last write wins at the same index
    let ev2 = store.set_price(999u64.to_le_bytes().to_vec(), 7).unwrap();
    assert_eq!(ev2, PriceEvent::PriceSet { price: 999, index: 7 });
    assert_eq!(store.simple_map(7), 999);
}

#[test]
fn unverified_proof_changes_nothing() {
    let mut store = PriceStore::new();
    store.set_price(4242u64.to_le_bytes().to_vec(), 7).unwrap();
    let err = store.set_price(vec![1, 2, 3], 7).unwrap_err();
    assert_eq!(err, ProjectionError::Unverified);
    assert_eq!(store.simple_map(7), 4242);
    let err2 = store.set_price(vec![], 9).unwrap_err();
    assert_eq!(err2, ProjectionError::Unverified);
    assert_eq!(store.simple_map(9), 0);
}

#[test]
fn unset_index_reads_zero() {
    let store = PriceStore::new();
    assert_eq!(store.simple_map(3), 0);
}

#[test]
fn decode_price_wants_exactly_eight_bytes() {
    assert_eq!(decode_price(&42u64.to_le_bytes().to_vec()), Some(42));
    assert_eq!(decode_price(&vec![1u8; 7]), None);
    assert_eq!(decode_price(&vec![1u8; 9]), None);
}

#[test]
fn signed_price_is_stored_at_current_index() {
    // A reporter signs a record whose payload is the price 42; the registry
    // trusts that reporter; submitting the proof at index 3 stores 42 there.
    let r = price_result(42);
    let (proof, identity) = signed_proof(&r, &[0x2b; 32]);
    let mut bridge = Bridge::new();
    bridge.set_validator(1, identity.clone());
    let (data, recovered, trusted) = bridge
        .test_signature_verification(proof.clone())
        .expect("the signed proof must pass the pipeline");
    assert_eq!(recovered, trusted);
    assert_eq!(data, 42u64.to_le_bytes().to_vec());

    let mut store = PriceStore::new();
    let ev = store.set_price(proof, 3).unwrap();
    assert_eq!(ev, PriceEvent::PriceSet { price: 42, index: 3 });
    assert_eq!(store.simple_map(3), 42);
}
