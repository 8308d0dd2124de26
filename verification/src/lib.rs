//! Verified core of a ledger oracle bridge: a canonical codec for signed
//! oracle results, a signature-recovery pipeline that derives the reporter's
//! identity, a single-slot registry of the trusted identity, and a price
//! table fed from accepted payloads.

pub mod codec;
pub mod crypto;
pub mod bridge;
pub mod price;
