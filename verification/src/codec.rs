//! Canonical codec for the oracle-result record and the proof envelope.
//!
//! The wire format is little-endian throughout: a proof is a fixed 65-byte
//! recoverable signature followed by the encoded result; a result is six
//! `u64` fields in declared order, then a `u32`-length-prefixed `params`
//! byte string, then a `u32`-length-prefixed `data` byte string. Decoding
//! rejects truncated input and trailing bytes, so that a successfully
//! decoded record re-encodes to exactly the bytes that were signed.

use vstd::prelude::*;

verus! {

/// Why a byte sequence was rejected by the decoder.
#[derive(Clone, Copy, Debug, PartialEq, Eq, Structural)]
pub enum DecodeError {
    /// Fewer bytes than the next field needs.
    Truncated,
    /// Bytes remain after the final field.
    TrailingBytes,
}

/// The little-endian bytes of a `u64`, least significant first.
pub open spec fn u64_le(x: u64) -> Seq<u8> {
    seq![
        (x & 0xff) as u8,
        ((x >> 8) & 0xff) as u8,
        ((x >> 16) & 0xff) as u8,
        ((x >> 24) & 0xff) as u8,
        ((x >> 32) & 0xff) as u8,
        ((x >> 40) & 0xff) as u8,
        ((x >> 48) & 0xff) as u8,
        ((x >> 56) & 0xff) as u8,
    ]
}

/// The little-endian bytes of a `u32`, least significant first.
pub open spec fn u32_le(x: u32) -> Seq<u8> {
    seq![
        (x & 0xff) as u8,
        ((x >> 8) & 0xff) as u8,
        ((x >> 16) & 0xff) as u8,
        ((x >> 24) & 0xff) as u8,
    ]
}

/// The `u64` read little-endian from an 8-byte sequence.
pub open spec fn u64_from_le(s: Seq<u8>) -> u64
    recommends
        s.len() == 8,
{
    (s[0] as u64) | ((s[1] as u64) << 8) | ((s[2] as u64) << 16) | ((s[3] as u64) << 24)
        | ((s[4] as u64) << 32) | ((s[5] as u64) << 40) | ((s[6] as u64) << 48)
        | ((s[7] as u64) << 56)
}

/// The `u32` read little-endian from a 4-byte sequence.
pub open spec fn u32_from_le(s: Seq<u8>) -> u32
    recommends
        s.len() == 4,
{
    (s[0] as u32) | ((s[1] as u32) << 8) | ((s[2] as u32) << 16) | ((s[3] as u32) << 24)
}

/// Reading back the little-endian bytes of a `u64` gives the value itself.
pub proof fn lemma_u64_le_round_trip(x: u64)
    ensures
        u64_from_le(u64_le(x)) == x,
{
    let s = u64_le(x);
    assert(s[0] == (x & 0xff) as u8);
    assert(s[1] == ((x >> 8) & 0xff) as u8);
    assert(s[2] == ((x >> 16) & 0xff) as u8);
    assert(s[3] == ((x >> 24) & 0xff) as u8);
    assert(s[4] == ((x >> 32) & 0xff) as u8);
    assert(s[5] == ((x >> 40) & 0xff) as u8);
    assert(s[6] == ((x >> 48) & 0xff) as u8);
    assert(s[7] == ((x >> 56) & 0xff) as u8);
    assert(((x & 0xff) as u8 as u64) | (((x >> 8) & 0xff) as u8 as u64) << 8
        | (((x >> 16) & 0xff) as u8 as u64) << 16 | (((x >> 24) & 0xff) as u8 as u64) << 24
        | (((x >> 32) & 0xff) as u8 as u64) << 32 | (((x >> 40) & 0xff) as u8 as u64) << 40
        | (((x >> 48) & 0xff) as u8 as u64) << 48 | (((x >> 56) & 0xff) as u8 as u64) << 56
        == x) by (bit_vector);
}

/// Writing back the `u64` read from 8 bytes reproduces those bytes.
pub proof fn lemma_u64_le_inverse(s: Seq<u8>)
    requires
        s.len() == 8,
    ensures
        u64_le(u64_from_le(s)) =~= s,
{
    let b0 = s[0];
    let b1 = s[1];
    let b2 = s[2];
    let b3 = s[3];
    let b4 = s[4];
    let b5 = s[5];
    let b6 = s[6];
    let b7 = s[7];
    let x = u64_from_le(s);
    assert(x == (b0 as u64) | ((b1 as u64) << 8) | ((b2 as u64) << 16) | ((b3 as u64) << 24)
        | ((b4 as u64) << 32) | ((b5 as u64) << 40) | ((b6 as u64) << 48) | ((b7 as u64) << 56));
    assert({
        let y = (b0 as u64) | ((b1 as u64) << 8) | ((b2 as u64) << 16) | ((b3 as u64) << 24)
            | ((b4 as u64) << 32) | ((b5 as u64) << 40) | ((b6 as u64) << 48) | ((b7 as u64) << 56);
        (y & 0xff) as u8 == b0 && ((y >> 8) & 0xff) as u8 == b1 && ((y >> 16) & 0xff) as u8 == b2
            && ((y >> 24) & 0xff) as u8 == b3 && ((y >> 32) & 0xff) as u8 == b4
            && ((y >> 40) & 0xff) as u8 == b5 && ((y >> 48) & 0xff) as u8 == b6
            && ((y >> 56) & 0xff) as u8 == b7
    }) by (bit_vector);
}

/// Reading back the little-endian bytes of a `u32` gives the value itself.
pub proof fn lemma_u32_le_round_trip(x: u32)
    ensures
        u32_from_le(u32_le(x)) == x,
{
    let s = u32_le(x);
    assert(s[0] == (x & 0xff) as u8);
    assert(s[1] == ((x >> 8) & 0xff) as u8);
    assert(s[2] == ((x >> 16) & 0xff) as u8);
    assert(s[3] == ((x >> 24) & 0xff) as u8);
    assert(((x & 0xff) as u8 as u32) | (((x >> 8) & 0xff) as u8 as u32) << 8
        | (((x >> 16) & 0xff) as u8 as u32) << 16 | (((x >> 24) & 0xff) as u8 as u32) << 24
        == x) by (bit_vector);
}

/// Writing back the `u32` read from 4 bytes reproduces those bytes.
pub proof fn lemma_u32_le_inverse(s: Seq<u8>)
    requires
        s.len() == 4,
    ensures
        u32_le(u32_from_le(s)) =~= s,
{
    let b0 = s[0];
    let b1 = s[1];
    let b2 = s[2];
    let b3 = s[3];
    let x = u32_from_le(s);
    assert(x == (b0 as u32) | ((b1 as u32) << 8) | ((b2 as u32) << 16) | ((b3 as u32) << 24));
    assert({
        let y = (b0 as u32) | ((b1 as u32) << 8) | ((b2 as u32) << 16) | ((b3 as u32) << 24);
        (y & 0xff) as u8 == b0 && ((y >> 8) & 0xff) as u8 == b1 && ((y >> 16) & 0xff) as u8 == b2
            && ((y >> 24) & 0xff) as u8 == b3
    }) by (bit_vector);
}

/// The oracle-result record whose canonical encoding is the signed message.
#[derive(Clone, Debug, PartialEq, Eq)]
pub struct VerifyOracleDataResult {
    pub oracle_script_id: u64,
    pub request_time: u64,
    pub aggregation_time: u64,
    pub requested_validators_count: u64,
    pub sufficient_validator_count: u64,
    pub reported_validators_count: u64,
    pub params: Vec<u8>,
    pub data: Vec<u8>,
}

/// A proof envelope: a 65-byte recoverable signature over the canonical
/// encoding of `result`.
#[derive(Clone, Debug, PartialEq, Eq)]
pub struct BandProof {
    pub signature: Vec<u8>,
    pub result: VerifyOracleDataResult,
}

/// Mathematical value of an oracle-result record.
#[verifier::ext_equal]
pub struct ResultModel {
    pub oracle_script_id: u64,
    pub request_time: u64,
    pub aggregation_time: u64,
    pub requested_validators_count: u64,
    pub sufficient_validator_count: u64,
    pub reported_validators_count: u64,
    pub params: Seq<u8>,
    pub data: Seq<u8>,
}

/// Mathematical value of a proof envelope.
#[verifier::ext_equal]
pub struct ProofModel {
    pub signature: Seq<u8>,
    pub result: ResultModel,
}

impl ResultModel {
    /// Both variable-length fields fit their 32-bit length prefixes.
    pub open spec fn wf(self) -> bool {
        self.params.len() <= 0xffff_ffff && self.data.len() <= 0xffff_ffff
    }
}

impl ProofModel {
    /// The signature is exactly 65 bytes and the record is encodable.
    pub open spec fn wf(self) -> bool {
        self.signature.len() == 65 && self.result.wf()
    }
}

impl View for VerifyOracleDataResult {
    type V = ResultModel;

    open spec fn view(&self) -> ResultModel {
        ResultModel {
            oracle_script_id: self.oracle_script_id,
            request_time: self.request_time,
            aggregation_time: self.aggregation_time,
            requested_validators_count: self.requested_validators_count,
            sufficient_validator_count: self.sufficient_validator_count,
            reported_validators_count: self.reported_validators_count,
            params: self.params@,
            data: self.data@,
        }
    }
}

impl View for BandProof {
    type V = ProofModel;

    open spec fn view(&self) -> ProofModel {
        ProofModel { signature: self.signature@, result: self.result@ }
    }
}

/// The canonical encoding of a record: six `u64` fields little-endian in
/// declared order, then `params` and `data`, each prefixed by its `u32`
/// little-endian length.
pub open spec fn spec_encode_result(r: ResultModel) -> Seq<u8> {
    u64_le(r.oracle_script_id) + u64_le(r.request_time) + u64_le(r.aggregation_time)
        + u64_le(r.requested_validators_count) + u64_le(r.sufficient_validator_count)
        + u64_le(r.reported_validators_count) + u32_le(r.params.len() as u32) + r.params
        + u32_le(r.data.len() as u32) + r.data
}

/// The canonical encoding of a proof: the raw 65-byte signature followed by
/// the encoded record.
pub open spec fn spec_encode_proof(p: ProofModel) -> Seq<u8> {
    p.signature + spec_encode_result(p.result)
}

/// The record decoder: succeeds exactly on sequences of the canonical shape,
/// consuming every byte.
pub open spec fn spec_decode_result(s: Seq<u8>) -> Result<ResultModel, DecodeError> {
    if s.len() < 52 {
        Err(DecodeError::Truncated)
    } else {
        let pl = u32_from_le(s.subrange(48, 52)) as int;
        if s.len() < 56 + pl {
            Err(DecodeError::Truncated)
        } else {
            let dl = u32_from_le(s.subrange(52 + pl, 56 + pl)) as int;
            if s.len() < 56 + pl + dl {
                Err(DecodeError::Truncated)
            } else if s.len() > 56 + pl + dl {
                Err(DecodeError::TrailingBytes)
            } else {
                Ok(ResultModel {
                    oracle_script_id: u64_from_le(s.subrange(0, 8)),
                    request_time: u64_from_le(s.subrange(8, 16)),
                    aggregation_time: u64_from_le(s.subrange(16, 24)),
                    requested_validators_count: u64_from_le(s.subrange(24, 32)),
                    sufficient_validator_count: u64_from_le(s.subrange(32, 40)),
                    reported_validators_count: u64_from_le(s.subrange(40, 48)),
                    params: s.subrange(52, 52 + pl),
                    data: s.subrange(56 + pl, 56 + pl + dl),
                })
            }
        }
    }
}

/// The proof decoder: a fixed 65-byte signature, then a record that must
/// consume the rest of the input.
pub open spec fn spec_decode_proof(s: Seq<u8>) -> Result<ProofModel, DecodeError> {
    if s.len() < 65 {
        Err(DecodeError::Truncated)
    } else {
        match spec_decode_result(s.subrange(65, s.len() as int)) {
            Ok(r) => Ok(ProofModel { signature: s.subrange(0, 65), result: r }),
            Err(e) => Err(e),
        }
    }
}

/// Appends the little-endian bytes of `x`.
fn push_u64_le(out: &mut Vec<u8>, x: u64)
    ensures
        final(out)@ == old(out)@ + u64_le(x),
{
    proof {
        assert((x & 0xff) <= 0xff && ((x >> 8) & 0xff) <= 0xff && ((x >> 16) & 0xff) <= 0xff
            && ((x >> 24) & 0xff) <= 0xff && ((x >> 32) & 0xff) <= 0xff
            && ((x >> 40) & 0xff) <= 0xff && ((x >> 48) & 0xff) <= 0xff
            && ((x >> 56) & 0xff) <= 0xff) by (bit_vector);
    }
    out.push((x & 0xff) as u8);
    out.push(((x >> 8) & 0xff) as u8);
    out.push(((x >> 16) & 0xff) as u8);
    out.push(((x >> 24) & 0xff) as u8);
    out.push(((x >> 32) & 0xff) as u8);
    out.push(((x >> 40) & 0xff) as u8);
    out.push(((x >> 48) & 0xff) as u8);
    out.push(((x >> 56) & 0xff) as u8);
    proof {
        assert(out@ =~= old(out)@ + u64_le(x));
    }
}

/// Appends the little-endian bytes of `x`.
fn push_u32_le(out: &mut Vec<u8>, x: u32)
    ensures
        final(out)@ == old(out)@ + u32_le(x),
{
    proof {
        assert((x & 0xff) <= 0xff && ((x >> 8) & 0xff) <= 0xff && ((x >> 16) & 0xff) <= 0xff
            && ((x >> 24) & 0xff) <= 0xff) by (bit_vector);
    }
    out.push((x & 0xff) as u8);
    out.push(((x >> 8) & 0xff) as u8);
    out.push(((x >> 16) & 0xff) as u8);
    out.push(((x >> 24) & 0xff) as u8);
    proof {
        assert(out@ =~= old(out)@ + u32_le(x));
    }
}

/// Appends a copy of `src`.
fn push_bytes(out: &mut Vec<u8>, src: &Vec<u8>)
    ensures
        final(out)@ == old(out)@ + src@,
{
    let mut i: usize = 0;
    while i < src.len()
        invariant
            i <= src.len(),
            out@ == old(out)@ + src@.subrange(0, i as int),
        decreases src.len() - i,
    {
        out.push(src[i]);
        i = i + 1;
        proof {
            assert(out@ =~= old(out)@ + src@.subrange(0, i as int));
        }
    }
    proof {
        assert(old(out)@ + src@.subrange(0, src@.len() as int) =~= old(out)@ + src@);
    }
}

/// The bytes of `bytes` from `start` (inclusive) to `end` (exclusive).
pub(crate) fn bytes_range(bytes: &Vec<u8>, start: usize, end: usize) -> (out: Vec<u8>)
    requires
        start <= end,
        end <= bytes.len(),
    ensures
        out@ == bytes@.subrange(start as int, end as int),
{
    let mut out: Vec<u8> = Vec::new();
    let mut i: usize = start;
    while i < end
        invariant
            start <= i <= end,
            end <= bytes.len(),
            out@ == bytes@.subrange(start as int, i as int),
        decreases end - i,
    {
        out.push(bytes[i]);
        i = i + 1;
        proof {
            assert(out@ =~= bytes@.subrange(start as int, i as int));
        }
    }
    out
}

/// Reads a `u64` little-endian at offset `off`.
fn read_u64_le(bytes: &Vec<u8>, off: usize) -> (x: u64)
    requires
        off + 8 <= bytes.len(),
    ensures
        x == u64_from_le(bytes@.subrange(off as int, off as int + 8)),
{
    let x = (bytes[off] as u64) | ((bytes[off + 1] as u64) << 8) | ((bytes[off + 2] as u64) << 16)
        | ((bytes[off + 3] as u64) << 24) | ((bytes[off + 4] as u64) << 32)
        | ((bytes[off + 5] as u64) << 40) | ((bytes[off + 6] as u64) << 48)
        | ((bytes[off + 7] as u64) << 56);
    proof {
        let s = bytes@.subrange(off as int, off as int + 8);
        assert(s[0] == bytes@[off as int]);
        assert(s[1] == bytes@[off as int + 1]);
        assert(s[2] == bytes@[off as int + 2]);
        assert(s[3] == bytes@[off as int + 3]);
        assert(s[4] == bytes@[off as int + 4]);
        assert(s[5] == bytes@[off as int + 5]);
        assert(s[6] == bytes@[off as int + 6]);
        assert(s[7] == bytes@[off as int + 7]);
    }
    x
}

/// Reads a `u32` little-endian at offset `off`.
fn read_u32_le(bytes: &Vec<u8>, off: usize) -> (x: u32)
    requires
        off + 4 <= bytes.len(),
    ensures
        x == u32_from_le(bytes@.subrange(off as int, off as int + 4)),
{
    let x = (bytes[off] as u32) | ((bytes[off + 1] as u32) << 8) | ((bytes[off + 2] as u32) << 16)
        | ((bytes[off + 3] as u32) << 24);
    proof {
        let s = bytes@.subrange(off as int, off as int + 4);
        assert(s[0] == bytes@[off as int]);
        assert(s[1] == bytes@[off as int + 1]);
        assert(s[2] == bytes@[off as int + 2]);
        assert(s[3] == bytes@[off as int + 3]);
    }
    x
}

/// Canonical encoding of a record: the exact message that is hashed and
/// signed.
pub fn encode_result(r: &VerifyOracleDataResult) -> (out: Vec<u8>)
    requires
        r@.wf(),
    ensures
        out@ == spec_encode_result(r@),
{
    let mut out: Vec<u8> = Vec::new();
    push_u64_le(&mut out, r.oracle_script_id);
    push_u64_le(&mut out, r.request_time);
    push_u64_le(&mut out, r.aggregation_time);
    push_u64_le(&mut out, r.requested_validators_count);
    push_u64_le(&mut out, r.sufficient_validator_count);
    push_u64_le(&mut out, r.reported_validators_count);
    push_u32_le(&mut out, r.params.len() as u32);
    push_bytes(&mut out, &r.params);
    push_u32_le(&mut out, r.data.len() as u32);
    push_bytes(&mut out, &r.data);
    proof {
        assert(out@ =~= spec_encode_result(r@));
    }
    out
}

/// Decodes a proof envelope; rejects truncated input and trailing bytes, so
/// a decoded record re-encodes to exactly the byte range that was signed.
pub fn decode_proof(bytes: &Vec<u8>) -> (r: Result<BandProof, DecodeError>)
    ensures
        match r {
            Ok(p) => spec_decode_proof(bytes@) == Ok::<ProofModel, DecodeError>(p@) && p@.wf(),
            Err(e) => spec_decode_proof(bytes@) == Err::<ProofModel, DecodeError>(e),
        },
{
    let n = bytes.len();
    if n < 65 {
        return Err(DecodeError::Truncated);
    }
    let ghost body: Seq<u8> = bytes@.subrange(65, n as int);
    let rest: u64 = (n - 65) as u64;
    if rest < 52 {
        return Err(DecodeError::Truncated);
    }
    let pl32 = read_u32_le(bytes, 65 + 48);
    proof {
        assert(body.subrange(48, 52) =~= bytes@.subrange(65int + 48, 65int + 52));
    }
    let pl: u64 = pl32 as u64;
    if rest < 56 + pl {
        return Err(DecodeError::Truncated);
    }
    let plu: usize = pl32 as usize;
    let dl32 = read_u32_le(bytes, 65 + 52 + plu);
    proof {
        assert(body.subrange(52 + pl as int, 56 + pl as int) =~= bytes@.subrange(
            65 + 52 + plu as int,
            65 + 56 + plu as int,
        ));
    }
    let dl: u64 = dl32 as u64;
    if rest < 56 + pl + dl {
        return Err(DecodeError::Truncated);
    }
    if rest > 56 + pl + dl {
        return Err(DecodeError::TrailingBytes);
    }
    let dlu: usize = dl32 as usize;
    let f0 = read_u64_le(bytes, 65);
    let f1 = read_u64_le(bytes, 65 + 8);
    let f2 = read_u64_le(bytes, 65 + 16);
    let f3 = read_u64_le(bytes, 65 + 24);
    let f4 = read_u64_le(bytes, 65 + 32);
    let f5 = read_u64_le(bytes, 65 + 40);
    let signature = bytes_range(bytes, 0, 65);
    let params = bytes_range(bytes, 65 + 52, 65 + 52 + plu);
    let data = bytes_range(bytes, 65 + 56 + plu, 65 + 56 + plu + dlu);
    let p = BandProof {
        signature,
        result: VerifyOracleDataResult {
            oracle_script_id: f0,
            request_time: f1,
            aggregation_time: f2,
            requested_validators_count: f3,
            sufficient_validator_count: f4,
            reported_validators_count: f5,
            params,
            data,
        },
    };
    proof {
        assert(body.subrange(0, 8) =~= bytes@.subrange(65int, 65int + 8));
        assert(body.subrange(8, 16) =~= bytes@.subrange(65int + 8, 65int + 16));
        assert(body.subrange(16, 24) =~= bytes@.subrange(65int + 16, 65int + 24));
        assert(body.subrange(24, 32) =~= bytes@.subrange(65int + 24, 65int + 32));
        assert(body.subrange(32, 40) =~= bytes@.subrange(65int + 32, 65int + 40));
        assert(body.subrange(40, 48) =~= bytes@.subrange(65int + 40, 65int + 48));
        assert(body.subrange(52, 52 + pl as int) =~= bytes@.subrange(
            65int + 52,
            65 + 52 + plu as int,
        ));
        assert(body.subrange(56 + pl as int, 56 + pl as int + dl as int) =~= bytes@.subrange(
            65 + 56 + plu as int,
            65 + 56 + plu as int + dlu as int,
        ));
        let m = spec_decode_result(body);
        assert(m is Ok);
        assert(m.unwrap() =~= p@.result);
        assert(spec_decode_proof(bytes@) == Ok::<ProofModel, DecodeError>(p@));
    }
    Ok(p)
}

/// Adjacent subranges of one sequence concatenate to the enclosing subrange.
proof fn lemma_subrange_concat(s: Seq<u8>, a: int, b: int, c: int)
    requires
        0 <= a <= b <= c <= s.len(),
    ensures
        s.subrange(a, b) + s.subrange(b, c) =~= s.subrange(a, c),
{
}

/// Round trip: a well-formed record decodes back from its own encoding.
pub proof fn lemma_result_round_trip(r: ResultModel)
    requires
        r.wf(),
    ensures
        spec_decode_result(spec_encode_result(r)) == Ok::<ResultModel, DecodeError>(r),
{
    let s = spec_encode_result(r);
    let pl = r.params.len() as int;
    let dl = r.data.len() as int;
    assert(s.len() == 56 + pl + dl);
    assert(s.subrange(0, 8) =~= u64_le(r.oracle_script_id));
    assert(s.subrange(8, 16) =~= u64_le(r.request_time));
    assert(s.subrange(16, 24) =~= u64_le(r.aggregation_time));
    assert(s.subrange(24, 32) =~= u64_le(r.requested_validators_count));
    assert(s.subrange(32, 40) =~= u64_le(r.sufficient_validator_count));
    assert(s.subrange(40, 48) =~= u64_le(r.reported_validators_count));
    assert(s.subrange(48, 52) =~= u32_le(r.params.len() as u32));
    assert(s.subrange(52, 52 + pl) =~= r.params);
    assert(s.subrange(52 + pl, 56 + pl) =~= u32_le(r.data.len() as u32));
    assert(s.subrange(56 + pl, 56 + pl + dl) =~= r.data);
    lemma_u32_le_round_trip(r.params.len() as u32);
    lemma_u32_le_round_trip(r.data.len() as u32);
    lemma_u64_le_round_trip(r.oracle_script_id);
    lemma_u64_le_round_trip(r.request_time);
    lemma_u64_le_round_trip(r.aggregation_time);
    lemma_u64_le_round_trip(r.requested_validators_count);
    lemma_u64_le_round_trip(r.sufficient_validator_count);
    lemma_u64_le_round_trip(r.reported_validators_count);
    assert(u32_from_le(s.subrange(48, 52)) as int == pl);
    assert(u32_from_le(s.subrange(52 + pl, 56 + pl)) as int == dl);
    assert(spec_decode_result(s).unwrap() =~= r);
    assert(spec_decode_result(s) == Ok::<ResultModel, DecodeError>(r));
}

/// Canonical form: any sequence the decoder accepts is reproduced, byte for
/// byte, by encoding the decoded record.
pub proof fn lemma_result_reencode(s: Seq<u8>)
    requires
        spec_decode_result(s) is Ok,
    ensures
        spec_decode_result(s).unwrap().wf(),
        spec_encode_result(spec_decode_result(s).unwrap()) == s,
{
    let pl = u32_from_le(s.subrange(48, 52)) as int;
    let dl = u32_from_le(s.subrange(52 + pl, 56 + pl)) as int;
    let r = spec_decode_result(s).unwrap();
    assert(s.len() == 56 + pl + dl);
    assert(r.params.len() == pl);
    assert(r.data.len() == dl);
    lemma_u64_le_inverse(s.subrange(0, 8));
    lemma_u64_le_inverse(s.subrange(8, 16));
    lemma_u64_le_inverse(s.subrange(16, 24));
    lemma_u64_le_inverse(s.subrange(24, 32));
    lemma_u64_le_inverse(s.subrange(32, 40));
    lemma_u64_le_inverse(s.subrange(40, 48));
    lemma_u32_le_inverse(s.subrange(48, 52));
    lemma_u32_le_inverse(s.subrange(52 + pl, 56 + pl));
    assert(r.params.len() as u32 == u32_from_le(s.subrange(48, 52)));
    assert(r.data.len() as u32 == u32_from_le(s.subrange(52 + pl, 56 + pl)));
    lemma_subrange_concat(s, 0, 8, 16);
    lemma_subrange_concat(s, 0, 16, 24);
    lemma_subrange_concat(s, 0, 24, 32);
    lemma_subrange_concat(s, 0, 32, 40);
    lemma_subrange_concat(s, 0, 40, 48);
    lemma_subrange_concat(s, 0, 48, 52);
    lemma_subrange_concat(s, 0, 52, 52 + pl);
    lemma_subrange_concat(s, 0, 52 + pl, 56 + pl);
    lemma_subrange_concat(s, 0, 56 + pl, 56 + pl + dl);
    assert(s.subrange(0, s.len() as int) =~= s);
    assert(spec_encode_result(r) == s);
}

/// Round trip at the proof level: a well-formed proof decodes back from its
/// own encoding.
pub proof fn lemma_proof_round_trip(p: ProofModel)
    requires
        p.wf(),
    ensures
        spec_decode_proof(spec_encode_proof(p)) == Ok::<ProofModel, DecodeError>(p),
{
    let s = spec_encode_proof(p);
    let e = spec_encode_result(p.result);
    assert(s.len() == 65 + e.len());
    assert(s.subrange(0, 65) =~= p.signature);
    assert(s.subrange(65, s.len() as int) =~= e);
    lemma_result_round_trip(p.result);
    assert(spec_decode_proof(s).unwrap() =~= p);
    assert(spec_decode_proof(s) == Ok::<ProofModel, DecodeError>(p));
}

/// Canonical form at the proof level: re-encoding an accepted proof
/// reproduces the input bytes, in particular the exact range that was signed.
pub proof fn lemma_proof_reencode(s: Seq<u8>)
    requires
        spec_decode_proof(s) is Ok,
    ensures
        spec_decode_proof(s).unwrap().wf(),
        spec_encode_proof(spec_decode_proof(s).unwrap()) == s,
{
    let body = s.subrange(65, s.len() as int);
    lemma_result_reencode(body);
    let p = spec_decode_proof(s).unwrap();
    assert(p.signature == s.subrange(0, 65));
    assert(spec_encode_proof(p) =~= s);
}

/// Idempotence: re-encoding a decoded encoding reproduces the encoding.
pub proof fn lemma_encode_idempotent(r: ResultModel)
    requires
        r.wf(),
    ensures
        spec_encode_result(spec_decode_result(spec_encode_result(r)).unwrap())
            == spec_encode_result(r),
{
    lemma_result_round_trip(r);
}

/// The decoder accepts exactly the canonical encodings of well-formed
/// proofs: nothing else decodes, and everything encodable decodes back.
pub proof fn lemma_decode_exactly_encodings(s: Seq<u8>)
    ensures
        spec_decode_proof(s) is Ok <==> exists|p: ProofModel| p.wf() && spec_encode_proof(p) == s,
{
    if spec_decode_proof(s) is Ok {
        lemma_proof_reencode(s);
        let p = spec_decode_proof(s).unwrap();
        assert(p.wf() && spec_encode_proof(p) == s);
    }
    if exists|p: ProofModel| p.wf() && spec_encode_proof(p) == s {
        let p = choose|p: ProofModel| p.wf() && spec_encode_proof(p) == s;
        lemma_proof_round_trip(p);
    }
}

/// Any input shorter than the minimum proof length — a 65-byte signature
/// plus a 56-byte minimal record — is rejected, never partially decoded.
pub proof fn lemma_short_proof_rejected(s: Seq<u8>)
    requires
        s.len() < 121,
    ensures
        spec_decode_proof(s) is Err,
{
    if s.len() >= 65 {
        let body = s.subrange(65, s.len() as int);
        assert(body.len() < 56);
        if body.len() >= 52 {
            let pl = u32_from_le(body.subrange(48, 52)) as int;
            assert(pl >= 0);
            assert(body.len() < 56 + pl);
        }
    }
}

} // verus!
