//! A per-owner financial ledger: a portfolio aggregate, the crypto-asset
//! holdings that compose it, an append-only audit trail of transactions, and
//! savings goals with progress tracking.
//!
//! Records are located by a deterministic address derived from the owner's
//! identity and a disambiguator, never by an external index. Every mutating
//! operation validates the derived address, checks that the caller is the
//! portfolio's owner, applies its transition atomically, and keeps the
//! portfolio's aggregates consistent with the records that reference it.

pub mod address;
pub mod errors;
pub mod ledger;
pub mod records;
