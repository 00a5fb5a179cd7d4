use vstd::arithmetic::div_mod::lemma_div_is_ordered;
use vstd::arithmetic::mul::lemma_mul_upper_bound;
use vstd::prelude::*;

use crate::address::{spec_derive_address, Address, OwnerId};

verus! {

/// Maximum byte length of an asset symbol or network name, a transaction
/// type, or a category.
pub const MAX_SHORT_FIELD: usize = 32;

/// Maximum byte length of a transaction identifier or a goal name.
pub const MAX_NAME_FIELD: usize = 64;

/// Maximum byte length of a transaction description.
pub const MAX_DESCRIPTION_FIELD: usize = 128;

/// Divisor of the fixed-point value computation: amounts and prices carry
/// six decimal places, so their product carries twelve and must be scaled
/// back down by one million.
pub const FIXED_POINT_SCALE: u64 = 1_000_000;

/// The per-owner summary record. Its aggregates must always equal what the
/// asset records referencing it add up to.
#[derive(Clone, Copy, Debug, PartialEq, Eq)]
pub struct Portfolio {
    /// The canonical address this portfolio lives at, fixed at creation.
    pub address: Address,
    /// The owner's verified identity, fixed at creation.
    pub owner: OwnerId,
    /// The disambiguator the address was derived with.
    pub bump: u8,
    /// Count of asset records ever added; no removal operation exists.
    pub total_assets: u32,
    /// Sum of the fixed-point values of all assets referencing this
    /// portfolio, in USD with six decimal places.
    pub total_value_usd: u64,
    pub created_at: i64,
    pub updated_at: i64,
}

/// A single holding. Many may reference one portfolio.
#[derive(Debug)]
pub struct CryptoAsset {
    /// Back-reference: the address of the owning portfolio, fixed at creation.
    pub portfolio: Address,
    pub symbol: Vec<u8>,
    /// Unsigned fixed-point quantity, six decimal places.
    pub amount: u64,
    /// Unsigned fixed-point USD price, six decimal places.
    pub price_usd: u64,
    pub network: Vec<u8>,
    pub last_updated: i64,
}

/// One immutable audit-trail entry; append-only, never mutated.
#[derive(Debug)]
pub struct TransactionRecord {
    /// Back-reference: the address of the owning portfolio, fixed at creation.
    pub portfolio: Address,
    /// Caller-supplied identifier; uniqueness is not enforced by this core.
    pub transaction_id: Vec<u8>,
    /// Signed amount: deposits positive, withdrawals negative.
    pub amount: i64,
    pub transaction_type: Vec<u8>,
    pub category: Vec<u8>,
    pub description: Vec<u8>,
    pub timestamp: i64,
}

/// A savings goal with a two-state progress machine: in progress until the
/// saved amount reaches the target, then completed forever.
#[derive(Debug)]
pub struct FinancialGoal {
    /// Back-reference: the address of the owning portfolio, fixed at creation.
    pub portfolio: Address,
    pub name: Vec<u8>,
    /// Unsigned fixed-point target, six decimal places; always positive.
    pub target_amount: u64,
    /// Unsigned fixed-point progress, six decimal places; only ever grows.
    pub current_amount: u64,
    pub target_date: i64,
    pub category: Vec<u8>,
    /// True exactly once `current_amount` has reached `target_amount`;
    /// never reset.
    pub is_completed: bool,
    pub created_at: i64,
    pub updated_at: i64,
}

/// The fixed-point USD value of a holding:
/// `floor(amount * price_usd / 1_000_000)`, computed over unbounded integers.
pub open spec fn asset_value(amount: u64, price_usd: u64) -> int {
    ((amount as int) * (price_usd as int)) / (FIXED_POINT_SCALE as int)
}

/// Compute `floor(amount * price_usd / 1_000_000)` over a 128-bit
/// intermediate: the amount and price domains span the full 64-bit range,
/// so the product must be taken wide before it is scaled back down.
pub fn scaled_value(amount: u64, price_usd: u64) -> (v: u128)
    ensures
        v == asset_value(amount, price_usd),
        v <= (u64::MAX as int) * (u64::MAX as int) / (FIXED_POINT_SCALE as int),
{
    proof {
        lemma_mul_upper_bound(amount as int, u64::MAX as int, price_usd as int, u64::MAX as int);
        lemma_div_is_ordered(
            (amount as int) * (price_usd as int),
            (u64::MAX as int) * (u64::MAX as int),
            FIXED_POINT_SCALE as int,
        );
    }
    let prod: u128 = (amount as u128) * (price_usd as u128);
    prod / (FIXED_POINT_SCALE as u128)
}

/// A portfolio is well formed when its address is the one derived from its
/// own owner and disambiguator.
pub open spec fn portfolio_wf(p: Portfolio) -> bool {
    p.address == spec_derive_address(p.owner@, p.bump)
}

/// An asset's variable-length fields respect their declared maximums.
pub open spec fn asset_wf(a: CryptoAsset) -> bool {
    &&& a.symbol@.len() <= MAX_SHORT_FIELD
    &&& a.network@.len() <= MAX_SHORT_FIELD
}

/// A transaction's variable-length fields respect their declared maximums.
pub open spec fn transaction_wf(t: TransactionRecord) -> bool {
    &&& t.transaction_id@.len() <= MAX_NAME_FIELD
    &&& t.transaction_type@.len() <= MAX_SHORT_FIELD
    &&& t.category@.len() <= MAX_SHORT_FIELD
    &&& t.description@.len() <= MAX_DESCRIPTION_FIELD
}

/// A goal is well formed when its fields respect their maximums, its target
/// is positive, and its completion flag never runs ahead of its progress.
pub open spec fn goal_wf(g: FinancialGoal) -> bool {
    &&& g.name@.len() <= MAX_NAME_FIELD
    &&& g.category@.len() <= MAX_SHORT_FIELD
    &&& g.target_amount >= 1
    &&& g.is_completed ==> g.current_amount >= g.target_amount
}

} // verus!
