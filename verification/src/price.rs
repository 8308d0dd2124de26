//! Price projection store: a sequence-index-keyed table of prices fed from
//! accepted payloads, one entry per index, last write wins.
//!
//! As found in the wiring this store mirrors, `set_price` obtains its
//! payload through the bridge's degraded trailing-bytes extractor
//! (`Bridge::verify_proof`), not through the signature-checking pipeline;
//! that choice is kept here deliberately and is visible in the contract.
//! The cryptographically checked path remains available to callers through
//! `Bridge::test_signature_verification`.

use std::collections::HashMap;

use vstd::prelude::*;

use crate::bridge::Bridge;
use crate::codec::u64_from_le;

verus! {

broadcast use vstd::std_specs::hash::group_hash_axioms;

/// Why a price submission was rejected (no state change either way).
#[derive(Clone, Copy, Debug, PartialEq, Eq, Structural)]
pub enum ProjectionError {
    /// The proof yielded no payload.
    Unverified,
    /// The payload held no well-formed fixed-width price.
    Malformed,
}

/// Notification that a price was recorded.
#[derive(Clone, Copy, Debug, PartialEq, Eq, Structural)]
pub enum PriceEvent {
    PriceSet { price: u64, index: u64 },
}

/// The price table: at most one logical record per sequence index.
pub struct PriceStore {
    table: HashMap<u64, u64>,
}

/// Decodes the fixed-width price from a payload: exactly eight bytes,
/// little-endian, nothing trailing.
pub fn decode_price(payload: &Vec<u8>) -> (r: Option<u64>)
    ensures
        match r {
            Some(price) => payload@.len() == 8 && price == u64_from_le(payload@),
            None => payload@.len() != 8,
        },
{
    if payload.len() != 8 {
        return None;
    }
    let price = (payload[0] as u64) | ((payload[1] as u64) << 8) | ((payload[2] as u64) << 16)
        | ((payload[3] as u64) << 24) | ((payload[4] as u64) << 32)
        | ((payload[5] as u64) << 40) | ((payload[6] as u64) << 48)
        | ((payload[7] as u64) << 56);
    Some(price)
}

impl PriceStore {
    /// The table as a map from sequence index to price.
    pub closed spec fn prices(self) -> Map<u64, u64> {
        self.table@
    }

    /// An empty price table.
    pub fn new() -> (s: PriceStore)
        ensures
            s.prices() == Map::<u64, u64>::empty(),
    {
        PriceStore { table: HashMap::new() }
    }

    /// The price recorded at `index`, or 0 where none was recorded.
    pub fn simple_map(&self, index: u64) -> (price: u64)
        ensures
            price == if self.prices().contains_key(index) {
                self.prices()[index]
            } else {
                0u64
            },
    {
        match self.table.get(&index) {
            Some(p) => *p,
            None => 0,
        }
    }

    /// Records the price carried by `proof_data` at the externally supplied
    /// current sequence index, overwriting any entry at that index; on
    /// failure the table is left completely unchanged. The notification is
    /// returned for the ledger to publish.
    pub fn set_price(&mut self, proof_data: Vec<u8>, current_index: u64) -> (r: Result<
        PriceEvent,
        ProjectionError,
    >)
        ensures
            match r {
                Ok(ev) => proof_data@.len() >= 8 && ({
                    let price = u64_from_le(
                        proof_data@.subrange(proof_data@.len() - 8, proof_data@.len() as int),
                    );
                    final(self).prices() == old(self).prices().insert(current_index, price) && ev
                        == (PriceEvent::PriceSet { price, index: current_index })
                }),
                Err(e) => proof_data@.len() < 8 && e == ProjectionError::Unverified
                    && final(self).prices() == old(self).prices(),
            },
    {
        match Bridge::verify_proof(proof_data) {
            Some(payload) => match decode_price(&payload) {
                Some(price) => {
                    self.table.insert(current_index, price);
                    Ok(PriceEvent::PriceSet { price, index: current_index })
                },
                None => Err(ProjectionError::Malformed),
            },
            None => Err(ProjectionError::Unverified),
        }
    }
}

} // verus!
