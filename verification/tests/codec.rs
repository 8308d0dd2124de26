use band_bridge::codec::{decode_proof, encode_result, DecodeError, VerifyOracleDataResult};

fn sample_result() -> VerifyOracleDataResult {
    VerifyOracleDataResult {
        oracle_script_id: 1,
        request_time: 1_577_836_800,
        aggregation_time: 1_577_836_805,
        requested_validators_count: 4,
        sufficient_validator_count: 3,
        reported_validators_count: 4,
        params: vec![0xAA, 0xBB, 0xCC],
        data: vec![1, 2, 3, 4, 5, 6, 7, 8],
    }
}

fn proof_bytes(sig: &[u8], result: &VerifyOracleDataResult) -> Vec<u8> {
    let mut out = sig.to_vec();
    out.extend_from_slice(&encode_result(result));
    out
}

#[test]
fn encode_result_matches_declared_layout() {
    let r = sample_result();
    let mut expected = Vec::new();
    for x in [
        r.oracle_script_id,
        r.request_time,
        r.aggregation_time,
        r.requested_validators_count,
        r.sufficient_validator_count,
        r.reported_validators_count,
    ] {
        expected.extend_from_slice(&x.to_le_bytes());
    }
    expected.extend_from_slice(&(r.params.len() as u32).to_le_bytes());
    expected.extend_from_slice(&r.params);
    expected.extend_from_slice(&(r.data.len() as u32).to_le_bytes());
    expected.extend_from_slice(&r.data);
    assert_eq!(encode_result(&r), expected);
}

#[test]
fn encode_result_matches_borsh() {
    let r = sample_result();
    let tuple = (
        r.oracle_script_id,
        r.request_time,
        r.aggregation_time,
        r.requested_validators_count,
        r.sufficient_validator_count,
        r.reported_validators_count,
        r.params.clone(),
        r.data.clone(),
    );
    assert_eq!(encode_result(&r), borsh::to_vec(&tuple).unwrap());
}

#[test]
fn decode_of_encode_round_trips() {
    let r = sample_result();
    let proof = proof_bytes(&[7u8; 65], &r);
    let decoded = decode_proof(&proof).expect("canonical bytes must decode");
    assert_eq!(decoded.signature, vec![7u8; 65]);
    assert_eq!(decoded.result, r);
}

#[test]
fn reencode_of_decode_is_identity() {
    let r = sample_result();
    let encoded = encode_result(&r);
    let proof = proof_bytes(&[9u8; 65], &r);
    let decoded = decode_proof(&proof).unwrap();
    assert_eq!(encode_result(&decoded.result), encoded);
}

#[test]
fn short_inputs_are_rejected() {
    for len in 0..121usize {
        let bytes = vec![0u8; len];
        assert_eq!(decode_proof(&bytes), Err(DecodeError::Truncated));
    }
}

#[test]
fn trailing_bytes_are_rejected() {
    let r = sample_result();
    let mut proof = proof_bytes(&[0u8; 65], &r);
    proof.push(0);
    assert_eq!(decode_proof(&proof), Err(DecodeError::TrailingBytes));
}

#[test]
fn overlong_params_length_is_rejected() {
    let r = sample_result();
    let mut proof = proof_bytes(&[0u8; 65], &r);
    // the params length prefix sits right after the six u64 fields
    proof[65 + 48] = 0xFF;
    assert_eq!(decode_proof(&proof), Err(DecodeError::Truncated));
}

#[test]
fn minimum_length_proof_round_trips() {
    let r = VerifyOracleDataResult {
        oracle_script_id: 0,
        request_time: 0,
        aggregation_time: 0,
        requested_validators_count: 0,
        sufficient_validator_count: 0,
        reported_validators_count: 0,
        params: vec![],
        data: vec![],
    };
    let proof = proof_bytes(&[1u8; 65], &r);
    assert_eq!(proof.len(), 121);
    let decoded = decode_proof(&proof).unwrap();
    assert_eq!(decoded.result, r);
}
