use vstd::prelude::*;

verus! {

/// Every way an operation can fail. Each error aborts the whole operation
/// with no record mutated.
#[derive(Clone, Copy, Debug, PartialEq, Eq, Structural)]
pub enum TinTinError {
    /// The caller's verified identity is not the portfolio's owner.
    Unauthorized,
    /// An amount, price, or goal target was zero where a positive value is required.
    InvalidAmount,
    /// The targeted asset does not exist or does not reference the supplied portfolio.
    AssetNotFound,
    /// The targeted goal does not exist or does not reference the supplied portfolio.
    GoalNotFound,
    /// A portfolio already lives at the derived address.
    AlreadyExists,
    /// The supplied address does not match the derived address, or no
    /// portfolio lives at it.
    InvalidAddress,
    /// A variable-length field exceeds its declared maximum size.
    InvalidInput,
    /// A checked addition on an aggregate or a goal would exceed its range.
    Overflow,
    /// Recomputing the total value would drive the aggregate negative,
    /// which means the portfolio's invariant was already violated.
    AggregateCorruption,
}

} // verus!
