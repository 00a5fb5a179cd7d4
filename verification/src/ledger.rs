use vstd::prelude::*;

use crate::address::{
    derive_address, owner_eq, spec_derive_address, validate_address, Address, OwnerId,
};
use crate::errors::TinTinError;
use crate::records::{
    asset_value, asset_wf, goal_wf, portfolio_wf, scaled_value, transaction_wf, CryptoAsset,
    FinancialGoal, Portfolio, TransactionRecord, MAX_DESCRIPTION_FIELD, MAX_NAME_FIELD,
    MAX_SHORT_FIELD,
};

verus! {

/// The whole store: every portfolio together with every record that
/// references one. Operations keep `wf` as an invariant.
pub struct Ledger {
    pub portfolios: Vec<Portfolio>,
    pub assets: Vec<CryptoAsset>,
    pub transactions: Vec<TransactionRecord>,
    pub goals: Vec<FinancialGoal>,
}

/// Sum of the fixed-point values of the assets referencing `addr`.
pub open spec fn sum_values(s: Seq<CryptoAsset>, addr: Address) -> int
    decreases s.len(),
{
    if s.len() == 0 {
        0
    } else {
        sum_values(s.drop_last(), addr) + if s.last().portfolio == addr {
            asset_value(s.last().amount, s.last().price_usd)
        } else {
            0
        }
    }
}

/// Count of the assets referencing `addr`.
pub open spec fn count_assets(s: Seq<CryptoAsset>, addr: Address) -> int
    decreases s.len(),
{
    if s.len() == 0 {
        0
    } else {
        count_assets(s.drop_last(), addr) + if s.last().portfolio == addr {
            1int
        } else {
            0int
        }
    }
}

/// Whether some portfolio in `s` lives at `addr`.
pub open spec fn has_portfolio(s: Seq<Portfolio>, addr: Address) -> bool {
    exists|i: int| 0 <= i < s.len() && s[i].address == addr
}

/// The index of the portfolio living at `addr`; meaningful only when
/// `has_portfolio(s, addr)` holds, and unique once addresses are distinct.
pub open spec fn portfolio_index_of(s: Seq<Portfolio>, addr: Address) -> int {
    choose|i: int| 0 <= i < s.len() && s[i].address == addr
}

/// What one asset contributes to the aggregates of the portfolio at `addr`.
pub open spec fn value_contribution(a: CryptoAsset, addr: Address) -> int {
    if a.portfolio == addr {
        asset_value(a.amount, a.price_usd)
    } else {
        0
    }
}

proof fn lemma_sum_values_push(s: Seq<CryptoAsset>, a: CryptoAsset, addr: Address)
    ensures
        sum_values(s.push(a), addr) == sum_values(s, addr) + value_contribution(a, addr),
        count_assets(s.push(a), addr) == count_assets(s, addr) + if a.portfolio == addr {
            1int
        } else {
            0int
        },
{
    assert(s.push(a).drop_last() =~= s);
}

proof fn lemma_sum_values_absent(s: Seq<CryptoAsset>, addr: Address)
    requires
        forall|i: int| 0 <= i < s.len() ==> (#[trigger] s[i]).portfolio != addr,
    ensures
        sum_values(s, addr) == 0,
        count_assets(s, addr) == 0,
    decreases s.len(),
{
    if s.len() > 0 {
        lemma_sum_values_absent(s.drop_last(), addr);
    }
}

proof fn lemma_sum_values_update(s: Seq<CryptoAsset>, i: int, a: CryptoAsset, addr: Address)
    requires
        0 <= i < s.len(),
    ensures
        sum_values(s.update(i, a), addr) == sum_values(s, addr) - value_contribution(s[i], addr)
            + value_contribution(a, addr),
        count_assets(s.update(i, a), addr) == count_assets(s, addr) - (if s[i].portfolio == addr {
            1int
        } else {
            0int
        }) + (if a.portfolio == addr {
            1int
        } else {
            0int
        }),
    decreases s.len(),
{
    if i == s.len() - 1 {
        assert(s.update(i, a).drop_last() =~= s.drop_last());
    } else {
        assert(s.update(i, a).drop_last() =~= s.drop_last().update(i, a));
        lemma_sum_values_update(s.drop_last(), i, a, addr);
    }
}

/// The aggregate-consistency law: in a well-formed store — and every
/// operation both requires and re-establishes well-formedness — each
/// portfolio's total value equals the sum of the fixed-point values of the
/// assets referencing it, and its asset count equals the number of those
/// assets.
pub proof fn lemma_wf_portfolio_aggregates(l: Ledger, i: int)
    requires
        l.wf(),
        0 <= i < l.portfolios@.len(),
    ensures
        l.portfolios@[i].total_value_usd == sum_values(l.assets@, l.portfolios@[i].address),
        l.portfolios@[i].total_assets == count_assets(l.assets@, l.portfolios@[i].address),
{
}

proof fn lemma_index_of_unique(s: Seq<Portfolio>, addr: Address, i: int)
    requires
        0 <= i < s.len(),
        s[i].address == addr,
        forall|a: int, b: int|
            0 <= a < s.len() && 0 <= b < s.len() && a != b ==> s[a].address != s[b].address,
    ensures
        has_portfolio(s, addr),
        portfolio_index_of(s, addr) == i,
{
    assert(has_portfolio(s, addr));
    let k = portfolio_index_of(s, addr);
    assert(0 <= k < s.len() && s[k].address == addr);
    if k != i {
        assert(s[k].address != s[i].address);
    }
}

/// Arguments that locate the target of `initialize_portfolio`: the caller
/// whose portfolio is to be created.
#[derive(Clone, Copy, Debug)]
pub struct InitializePortfolio {
    /// The pre-verified identity of the caller; it becomes the owner.
    pub caller: OwnerId,
}

/// Arguments that locate the target of `add_asset`.
#[derive(Clone, Copy, Debug)]
pub struct AddAsset {
    /// The pre-verified identity of the caller.
    pub caller: OwnerId,
    /// The address the caller claims the portfolio lives at.
    pub portfolio_address: Address,
}

/// Arguments that locate the targets of `update_asset`.
#[derive(Clone, Copy, Debug)]
pub struct UpdateAsset {
    /// The pre-verified identity of the caller.
    pub caller: OwnerId,
    /// The address the caller claims the portfolio lives at.
    pub portfolio_address: Address,
    /// Which asset record to mutate.
    pub asset_index: usize,
}

/// Arguments that locate the target of `record_transaction`.
#[derive(Clone, Copy, Debug)]
pub struct RecordTransaction {
    /// The pre-verified identity of the caller.
    pub caller: OwnerId,
    /// The address the caller claims the portfolio lives at.
    pub portfolio_address: Address,
}

/// Arguments that locate the target of `create_goal`.
#[derive(Clone, Copy, Debug)]
pub struct CreateGoal {
    /// The pre-verified identity of the caller.
    pub caller: OwnerId,
    /// The address the caller claims the portfolio lives at.
    pub portfolio_address: Address,
}

/// Arguments that locate the targets of `update_goal_progress`.
#[derive(Clone, Copy, Debug)]
pub struct UpdateGoalProgress {
    /// The pre-verified identity of the caller.
    pub caller: OwnerId,
    /// The address the caller claims the portfolio lives at.
    pub portfolio_address: Address,
    /// Which goal record to advance.
    pub goal_index: usize,
}

/// The portfolio `initialize_portfolio` creates for `(owner, bump)` at `now`:
/// empty aggregates, both timestamps set to `now`.
pub open spec fn new_portfolio_record(owner: OwnerId, bump: u8, now: i64) -> Portfolio {
    Portfolio {
        address: spec_derive_address(owner@, bump),
        owner,
        bump,
        total_assets: 0,
        total_value_usd: 0,
        created_at: now,
        updated_at: now,
    }
}

/// The asset record `add_asset` creates.
pub open spec fn new_asset_record(
    addr: Address,
    symbol: Vec<u8>,
    amount: u64,
    price_usd: u64,
    network: Vec<u8>,
    now: i64,
) -> CryptoAsset {
    CryptoAsset { portfolio: addr, symbol, amount, price_usd, network, last_updated: now }
}

/// How `add_asset` changes the targeted portfolio: one more asset counted,
/// the new asset's value added to the total, and the timestamp refreshed.
pub open spec fn portfolio_after_add(p: Portfolio, amount: u64, price_usd: u64, now: i64) -> Portfolio {
    Portfolio {
        total_assets: (p.total_assets + 1) as u32,
        total_value_usd: (p.total_value_usd + asset_value(amount, price_usd)) as u64,
        updated_at: now,
        ..p
    }
}

/// A portfolio with only its `updated_at` timestamp refreshed.
pub open spec fn portfolio_touched(p: Portfolio, now: i64) -> Portfolio {
    Portfolio { updated_at: now, ..p }
}

/// The outcome `add_asset` owes: the first error whose condition holds, in
/// the order the operation checks them, or success when none does.
pub open spec fn add_asset_check(
    pre: Ledger,
    ctx: AddAsset,
    symbol: Seq<u8>,
    amount: u64,
    price_usd: u64,
    network: Seq<u8>,
) -> Result<(), TinTinError> {
    if !has_portfolio(pre.portfolios@, ctx.portfolio_address) {
        Err(TinTinError::InvalidAddress)
    } else {
        let p = pre.portfolios@[portfolio_index_of(pre.portfolios@, ctx.portfolio_address)];
        if p.owner@ != ctx.caller@ {
            Err(TinTinError::Unauthorized)
        } else if symbol.len() > MAX_SHORT_FIELD || network.len() > MAX_SHORT_FIELD {
            Err(TinTinError::InvalidInput)
        } else if amount == 0 || price_usd == 0 {
            Err(TinTinError::InvalidAmount)
        } else if asset_value(amount, price_usd) > u64::MAX || p.total_value_usd + asset_value(
            amount,
            price_usd,
        ) > u64::MAX || p.total_assets == u32::MAX {
            Err(TinTinError::Overflow)
        } else {
            Ok(())
        }
    }
}

/// The asset record as `update_asset` leaves it: whichever of the new
/// amount and price are present applied, the rest unchanged, and the
/// timestamp refreshed.
pub open spec fn asset_after_update(
    a: CryptoAsset,
    new_amount: Option<u64>,
    new_price_usd: Option<u64>,
    now: i64,
) -> CryptoAsset {
    CryptoAsset {
        amount: match new_amount {
            Some(v) => v,
            None => a.amount,
        },
        price_usd: match new_price_usd {
            Some(v) => v,
            None => a.price_usd,
        },
        last_updated: now,
        ..a
    }
}

/// How `update_asset` changes the targeted portfolio: the revalued asset's
/// old value swapped for its new one, and the timestamp refreshed.
pub open spec fn portfolio_after_revalue(
    p: Portfolio,
    old_value: int,
    new_value: int,
    now: i64,
) -> Portfolio {
    Portfolio {
        total_value_usd: (p.total_value_usd - old_value + new_value) as u64,
        updated_at: now,
        ..p
    }
}

/// The outcome `update_asset` owes: the first error whose condition holds,
/// in the order the operation checks them, or success when none does.
pub open spec fn update_asset_check(
    pre: Ledger,
    ctx: UpdateAsset,
    new_amount: Option<u64>,
    new_price_usd: Option<u64>,
) -> Result<(), TinTinError> {
    if !has_portfolio(pre.portfolios@, ctx.portfolio_address) {
        Err(TinTinError::InvalidAddress)
    } else {
        let p = pre.portfolios@[portfolio_index_of(pre.portfolios@, ctx.portfolio_address)];
        if p.owner@ != ctx.caller@ {
            Err(TinTinError::Unauthorized)
        } else if ctx.asset_index >= pre.assets@.len() || pre.assets@[ctx.asset_index as int].portfolio
            != ctx.portfolio_address {
            Err(TinTinError::AssetNotFound)
        } else {
            let a0 = pre.assets@[ctx.asset_index as int];
            let a1 = asset_after_update(a0, new_amount, new_price_usd, a0.last_updated);
            let total = p.total_value_usd - asset_value(a0.amount, a0.price_usd) + asset_value(
                a1.amount,
                a1.price_usd,
            );
            if total < 0 {
                Err(TinTinError::AggregateCorruption)
            } else if total > u64::MAX {
                Err(TinTinError::Overflow)
            } else {
                Ok(())
            }
        }
    }
}

/// The audit-trail record `record_transaction` creates.
pub open spec fn new_transaction_record(
    addr: Address,
    transaction_id: Vec<u8>,
    amount: i64,
    transaction_type: Vec<u8>,
    category: Vec<u8>,
    description: Vec<u8>,
    now: i64,
) -> TransactionRecord {
    TransactionRecord {
        portfolio: addr,
        transaction_id,
        amount,
        transaction_type,
        category,
        description,
        timestamp: now,
    }
}

/// The outcome `record_transaction` owes: the first error whose condition
/// holds, in the order the operation checks them, or success when none does.
pub open spec fn record_transaction_check(
    pre: Ledger,
    ctx: RecordTransaction,
    transaction_id: Seq<u8>,
    transaction_type: Seq<u8>,
    category: Seq<u8>,
    description: Seq<u8>,
) -> Result<(), TinTinError> {
    if !has_portfolio(pre.portfolios@, ctx.portfolio_address) {
        Err(TinTinError::InvalidAddress)
    } else {
        let p = pre.portfolios@[portfolio_index_of(pre.portfolios@, ctx.portfolio_address)];
        if p.owner@ != ctx.caller@ {
            Err(TinTinError::Unauthorized)
        } else if transaction_id.len() > MAX_NAME_FIELD || transaction_type.len() > MAX_SHORT_FIELD
            || category.len() > MAX_SHORT_FIELD || description.len() > MAX_DESCRIPTION_FIELD {
            Err(TinTinError::InvalidInput)
        } else {
            Ok(())
        }
    }
}

/// The goal record `create_goal` creates: no progress yet, not completed,
/// both timestamps set to `now`.
pub open spec fn new_goal_record(
    addr: Address,
    name: Vec<u8>,
    target_amount: u64,
    target_date: i64,
    category: Vec<u8>,
    now: i64,
) -> FinancialGoal {
    FinancialGoal {
        portfolio: addr,
        name,
        target_amount,
        current_amount: 0,
        target_date,
        category,
        is_completed: false,
        created_at: now,
        updated_at: now,
    }
}

/// The outcome `create_goal` owes: the first error whose condition holds,
/// in the order the operation checks them, or success when none does.
pub open spec fn create_goal_check(
    pre: Ledger,
    ctx: CreateGoal,
    name: Seq<u8>,
    target_amount: u64,
    category: Seq<u8>,
) -> Result<(), TinTinError> {
    if !has_portfolio(pre.portfolios@, ctx.portfolio_address) {
        Err(TinTinError::InvalidAddress)
    } else {
        let p = pre.portfolios@[portfolio_index_of(pre.portfolios@, ctx.portfolio_address)];
        if p.owner@ != ctx.caller@ {
            Err(TinTinError::Unauthorized)
        } else if name.len() > MAX_NAME_FIELD || category.len() > MAX_SHORT_FIELD {
            Err(TinTinError::InvalidInput)
        } else if target_amount == 0 {
            Err(TinTinError::InvalidAmount)
        } else {
            Ok(())
        }
    }
}

/// The goal record as `update_goal_progress` leaves it: the added amount
/// folded into the progress, the completion flag raised exactly when the
/// progress has reached the target (and never lowered), and the timestamp
/// refreshed.
pub open spec fn goal_after_progress(g: FinancialGoal, amount_to_add: u64, now: i64) -> FinancialGoal {
    FinancialGoal {
        current_amount: (g.current_amount + amount_to_add) as u64,
        is_completed: g.is_completed || g.current_amount + amount_to_add >= g.target_amount,
        updated_at: now,
        ..g
    }
}

/// The outcome `update_goal_progress` owes: the first error whose condition
/// holds, in the order the operation checks them, or success when none does.
pub open spec fn update_goal_check(
    pre: Ledger,
    ctx: UpdateGoalProgress,
    amount_to_add: u64,
) -> Result<(), TinTinError> {
    if !has_portfolio(pre.portfolios@, ctx.portfolio_address) {
        Err(TinTinError::InvalidAddress)
    } else {
        let p = pre.portfolios@[portfolio_index_of(pre.portfolios@, ctx.portfolio_address)];
        if p.owner@ != ctx.caller@ {
            Err(TinTinError::Unauthorized)
        } else if ctx.goal_index >= pre.goals@.len() || pre.goals@[ctx.goal_index as int].portfolio
            != ctx.portfolio_address {
            Err(TinTinError::GoalNotFound)
        } else if pre.goals@[ctx.goal_index as int].current_amount + amount_to_add > u64::MAX {
            Err(TinTinError::Overflow)
        } else {
            Ok(())
        }
    }
}

impl Ledger {
    /// The store's invariant: every record is well formed, every
    /// back-reference points at an existing portfolio, portfolio addresses
    /// are distinct, and each portfolio's aggregates equal what the assets
    /// referencing it add up to.
    pub open spec fn wf(self) -> bool {
        &&& forall|i: int|
            0 <= i < self.portfolios@.len() ==> portfolio_wf(#[trigger] self.portfolios@[i])
        &&& forall|i: int, j: int|
            0 <= i < self.portfolios@.len() && 0 <= j < self.portfolios@.len() && i != j
                ==> self.portfolios@[i].address != self.portfolios@[j].address
        &&& forall|i: int|
            0 <= i < self.portfolios@.len()
                ==> (#[trigger] self.portfolios@[i]).total_value_usd == sum_values(
                self.assets@,
                self.portfolios@[i].address,
            )
        &&& forall|i: int|
            0 <= i < self.portfolios@.len()
                ==> (#[trigger] self.portfolios@[i]).total_assets == count_assets(
                self.assets@,
                self.portfolios@[i].address,
            )
        &&& forall|i: int|
            0 <= i < self.assets@.len() ==> asset_wf(#[trigger] self.assets@[i])
                && has_portfolio(self.portfolios@, self.assets@[i].portfolio)
        &&& forall|i: int|
            0 <= i < self.transactions@.len() ==> transaction_wf(#[trigger] self.transactions@[i])
                && has_portfolio(self.portfolios@, self.transactions@[i].portfolio)
        &&& forall|i: int|
            0 <= i < self.goals@.len() ==> goal_wf(#[trigger] self.goals@[i]) && has_portfolio(
                self.portfolios@,
                self.goals@[i].portfolio,
            )
    }

    /// An empty store: no portfolio, no records; trivially well formed.
    pub fn new() -> (l: Ledger)
        ensures
            l.wf(),
            l.portfolios@.len() == 0,
            l.assets@.len() == 0,
            l.transactions@.len() == 0,
            l.goals@.len() == 0,
    {
        Ledger {
            portfolios: Vec::new(),
            assets: Vec::new(),
            transactions: Vec::new(),
            goals: Vec::new(),
        }
    }

    /// Locate the portfolio living at `addr`, if any.
    fn find_portfolio(&self, addr: Address) -> (r: Option<usize>)
        ensures
            match r {
                Some(i) => i < self.portfolios@.len() && self.portfolios@[i as int].address
                    == addr,
                None => !has_portfolio(self.portfolios@, addr),
            },
    {
        let n = self.portfolios.len();
        let mut i: usize = 0;
        while i < n
            invariant
                i <= n,
                n == self.portfolios@.len(),
                forall|j: int| 0 <= j < i ==> self.portfolios@[j].address != addr,
            decreases n - i,
        {
            if self.portfolios[i].address == addr {
                return Some(i);
            }
            i = i + 1;
        }
        None
    }

    /// Create the caller's portfolio at the address derived from their
    /// identity and `portfolio_bump`, with zeroed aggregates and both
    /// timestamps set to `now`. Fails with `AlreadyExists`, touching
    /// nothing, if a portfolio already lives at that address.
    pub fn initialize_portfolio(
        &mut self,
        ctx: InitializePortfolio,
        portfolio_bump: u8,
        now: i64,
    ) -> (r: Result<Portfolio, TinTinError>)
        requires
            old(self).wf(),
        ensures
            final(self).wf(),
            ({
                let addr = spec_derive_address(ctx.caller@, portfolio_bump);
                match r {
                    Ok(p) => {
                        &&& !has_portfolio(old(self).portfolios@, addr)
                        &&& p == new_portfolio_record(ctx.caller, portfolio_bump, now)
                        &&& final(self).portfolios@ == old(self).portfolios@.push(p)
                        &&& final(self).assets@ == old(self).assets@
                        &&& final(self).transactions@ == old(self).transactions@
                        &&& final(self).goals@ == old(self).goals@
                    },
                    Err(e) => {
                        &&& e == TinTinError::AlreadyExists
                        &&& has_portfolio(old(self).portfolios@, addr)
                        &&& *final(self) == *old(self)
                    },
                }
            }),
            forall|i: int|
                0 <= i < old(self).portfolios@.len()
                    ==> (#[trigger] final(self).portfolios@[i]).total_assets >= old(
                    self,
                ).portfolios@[i].total_assets,
            forall|i: int|
                0 <= i < old(self).goals@.len() ==> ((#[trigger] old(
                    self,
                ).goals@[i]).is_completed ==> final(self).goals@[i].is_completed),
    {
        let addr = derive_address(&ctx.caller, portfolio_bump);
        match self.find_portfolio(addr) {
            Some(_) => Err(TinTinError::AlreadyExists),
            None => {
                let p = Portfolio {
                    address: addr,
                    owner: ctx.caller,
                    bump: portfolio_bump,
                    total_assets: 0,
                    total_value_usd: 0,
                    created_at: now,
                    updated_at: now,
                };
                self.portfolios.push(p);
                proof {
                    let pre = old(self).portfolios@;
                    let post = self.portfolios@;
                    assert forall|x: Address| has_portfolio(pre, x) implies has_portfolio(
                        post,
                        x,
                    ) by {
                        let w = choose|i: int| 0 <= i < pre.len() && pre[i].address == x;
                        assert(post[w].address == x);
                    }
                    assert forall|i: int| 0 <= i < self.assets@.len() implies (
                    #[trigger] self.assets@[i]).portfolio != addr by {
                        assert(has_portfolio(pre, self.assets@[i].portfolio));
                        let w = choose|k: int|
                            0 <= k < pre.len() && pre[k].address == self.assets@[i].portfolio;
                        assert(pre[w].address != addr);
                    }
                    lemma_sum_values_absent(self.assets@, addr);
                    assert forall|i: int| 0 <= i < self.portfolios@.len() implies ((
                    #[trigger] self.portfolios@[i]).total_value_usd == sum_values(
                        self.assets@,
                        self.portfolios@[i].address,
                    ) && self.portfolios@[i].total_assets == count_assets(
                        self.assets@,
                        self.portfolios@[i].address,
                    )) by {
                        if i < pre.len() {
                            assert(self.portfolios@[i] == pre[i]);
                        }
                    }
                }
                Ok(p)
            },
        }
    }

    /// Create a holding referencing the portfolio at `ctx.portfolio_address`
    /// and fold its value into that portfolio's aggregates. On success the
    /// result is the new record's index. On any error nothing changes.
    pub fn add_asset(
        &mut self,
        ctx: AddAsset,
        symbol: Vec<u8>,
        amount: u64,
        price_usd: u64,
        network: Vec<u8>,
        now: i64,
    ) -> (r: Result<usize, TinTinError>)
        requires
            old(self).wf(),
        ensures
            final(self).wf(),
            match r {
                Ok(i) => {
                    &&& add_asset_check(*old(self), ctx, symbol@, amount, price_usd, network@)
                        == Ok::<(), TinTinError>(())
                    &&& i == old(self).assets@.len()
                    &&& final(self).assets@ == old(self).assets@.push(
                        new_asset_record(
                            ctx.portfolio_address,
                            symbol,
                            amount,
                            price_usd,
                            network,
                            now,
                        ),
                    )
                    &&& ({
                        let k = portfolio_index_of(old(self).portfolios@, ctx.portfolio_address);
                        final(self).portfolios@ == old(self).portfolios@.update(
                            k,
                            portfolio_after_add(
                                old(self).portfolios@[k],
                                amount,
                                price_usd,
                                now,
                            ),
                        )
                    })
                    &&& final(self).transactions@ == old(self).transactions@
                    &&& final(self).goals@ == old(self).goals@
                },
                Err(e) => {
                    &&& add_asset_check(*old(self), ctx, symbol@, amount, price_usd, network@)
                        == Err::<(), TinTinError>(e)
                    &&& *final(self) == *old(self)
                },
            },
            forall|i: int|
                0 <= i < old(self).portfolios@.len()
                    ==> (#[trigger] final(self).portfolios@[i]).total_assets >= old(
                    self,
                ).portfolios@[i].total_assets,
            forall|i: int|
                0 <= i < old(self).goals@.len() ==> ((#[trigger] old(
                    self,
                ).goals@[i]).is_completed ==> final(self).goals@[i].is_completed),
    {
        let pi = match self.find_portfolio(ctx.portfolio_address) {
            Some(i) => i,
            None => {
                return Err(TinTinError::InvalidAddress);
            },
        };
        proof {
            lemma_index_of_unique(self.portfolios@, ctx.portfolio_address, pi as int);
        }
        let p = self.portfolios[pi];
        if let Err(e) = validate_address(ctx.portfolio_address, &p.owner, p.bump) {
            return Err(e);
        }
        if !owner_eq(&ctx.caller, &p.owner) {
            return Err(TinTinError::Unauthorized);
        }
        if symbol.len() > MAX_SHORT_FIELD || network.len() > MAX_SHORT_FIELD {
            return Err(TinTinError::InvalidInput);
        }
        if amount == 0 || price_usd == 0 {
            return Err(TinTinError::InvalidAmount);
        }
        let value_wide = scaled_value(amount, price_usd);
        if value_wide > u64::MAX as u128 {
            return Err(TinTinError::Overflow);
        }
        let value = value_wide as u64;
        if p.total_value_usd > u64::MAX - value {
            return Err(TinTinError::Overflow);
        }
        if p.total_assets == u32::MAX {
            return Err(TinTinError::Overflow);
        }
        let idx = self.assets.len();
        self.portfolios[pi] = Portfolio {
            total_assets: p.total_assets + 1,
            total_value_usd: p.total_value_usd + value,
            updated_at: now,
            ..p
        };
        self.assets.push(
            CryptoAsset {
                portfolio: ctx.portfolio_address,
                symbol,
                amount,
                price_usd,
                network,
                last_updated: now,
            },
        );
        proof {
            let pre = *old(self);
            let a = self.assets@.last();
            assert(self.assets@.drop_last() =~= pre.assets@);
            assert(self.assets@ =~= pre.assets@.push(a));
            assert forall|x: Address| has_portfolio(pre.portfolios@, x) implies has_portfolio(
                self.portfolios@,
                x,
            ) by {
                let w = choose|i: int|
                    0 <= i < pre.portfolios@.len() && pre.portfolios@[i].address == x;
                assert(self.portfolios@[w].address == x);
            }
            assert forall|j: int| 0 <= j < self.portfolios@.len() implies ((
            #[trigger] self.portfolios@[j]).total_value_usd == sum_values(
                self.assets@,
                self.portfolios@[j].address,
            ) && self.portfolios@[j].total_assets == count_assets(
                self.assets@,
                self.portfolios@[j].address,
            )) by {
                lemma_sum_values_push(pre.assets@, a, self.portfolios@[j].address);
                if j != pi as int {
                    assert(pre.portfolios@[j].address != pre.portfolios@[pi as int].address);
                    assert(self.portfolios@[j] == pre.portfolios@[j]);
                }
            }
        }
        Ok(idx)
    }

    /// Apply whichever of `new_amount` and `new_price_usd` are present to
    /// the targeted asset, swap its old value for its new one in the owning
    /// portfolio's total, and refresh both timestamps. On any error nothing
    /// changes.
    pub fn update_asset(
        &mut self,
        ctx: UpdateAsset,
        new_amount: Option<u64>,
        new_price_usd: Option<u64>,
        now: i64,
    ) -> (r: Result<(), TinTinError>)
        requires
            old(self).wf(),
        ensures
            final(self).wf(),
            match r {
                Ok(()) => {
                    &&& update_asset_check(*old(self), ctx, new_amount, new_price_usd) == Ok::<
                        (),
                        TinTinError,
                    >(())
                    &&& ({
                        let a0 = old(self).assets@[ctx.asset_index as int];
                        let a1 = asset_after_update(a0, new_amount, new_price_usd, now);
                        let k = portfolio_index_of(old(self).portfolios@, ctx.portfolio_address);
                        &&& final(self).assets@ == old(self).assets@.update(
                            ctx.asset_index as int,
                            a1,
                        )
                        &&& final(self).portfolios@ == old(self).portfolios@.update(
                            k,
                            portfolio_after_revalue(
                                old(self).portfolios@[k],
                                asset_value(a0.amount, a0.price_usd),
                                asset_value(a1.amount, a1.price_usd),
                                now,
                            ),
                        )
                    })
                    &&& final(self).transactions@ == old(self).transactions@
                    &&& final(self).goals@ == old(self).goals@
                },
                Err(e) => {
                    &&& update_asset_check(*old(self), ctx, new_amount, new_price_usd) == Err::<
                        (),
                        TinTinError,
                    >(e)
                    &&& *final(self) == *old(self)
                },
            },
            forall|i: int|
                0 <= i < old(self).portfolios@.len()
                    ==> (#[trigger] final(self).portfolios@[i]).total_assets >= old(
                    self,
                ).portfolios@[i].total_assets,
            forall|i: int|
                0 <= i < old(self).goals@.len() ==> ((#[trigger] old(
                    self,
                ).goals@[i]).is_completed ==> final(self).goals@[i].is_completed),
    {
        let pi = match self.find_portfolio(ctx.portfolio_address) {
            Some(i) => i,
            None => {
                return Err(TinTinError::InvalidAddress);
            },
        };
        proof {
            lemma_index_of_unique(self.portfolios@, ctx.portfolio_address, pi as int);
        }
        let p = self.portfolios[pi];
        if let Err(e) = validate_address(ctx.portfolio_address, &p.owner, p.bump) {
            return Err(e);
        }
        if !owner_eq(&ctx.caller, &p.owner) {
            return Err(TinTinError::Unauthorized);
        }
        if ctx.asset_index >= self.assets.len() {
            return Err(TinTinError::AssetNotFound);
        }
        if self.assets[ctx.asset_index].portfolio != ctx.portfolio_address {
            return Err(TinTinError::AssetNotFound);
        }
        let old_amount = self.assets[ctx.asset_index].amount;
        let old_price = self.assets[ctx.asset_index].price_usd;
        let old_value = scaled_value(old_amount, old_price);
        let applied_amount = match new_amount {
            Some(v) => v,
            None => old_amount,
        };
        let applied_price = match new_price_usd {
            Some(v) => v,
            None => old_price,
        };
        let new_value = scaled_value(applied_amount, applied_price);
        let total_wide: i128 = p.total_value_usd as i128 - old_value as i128 + new_value as i128;
        if total_wide < 0 {
            return Err(TinTinError::AggregateCorruption);
        }
        if total_wide > u64::MAX as i128 {
            return Err(TinTinError::Overflow);
        }
        self.assets[ctx.asset_index].amount = applied_amount;
        self.assets[ctx.asset_index].price_usd = applied_price;
        self.assets[ctx.asset_index].last_updated = now;
        self.portfolios[pi] = Portfolio {
            total_value_usd: total_wide as u64,
            updated_at: now,
            ..p
        };
        proof {
            let pre = *old(self);
            let idx = ctx.asset_index as int;
            let a0 = pre.assets@[idx];
            let a1 = asset_after_update(a0, new_amount, new_price_usd, now);
            assert(self.assets@ =~= pre.assets@.update(idx, a1));
            assert forall|x: Address| has_portfolio(pre.portfolios@, x) implies has_portfolio(
                self.portfolios@,
                x,
            ) by {
                let w = choose|i: int|
                    0 <= i < pre.portfolios@.len() && pre.portfolios@[i].address == x;
                assert(self.portfolios@[w].address == x);
            }
            assert forall|j: int| 0 <= j < self.portfolios@.len() implies ((
            #[trigger] self.portfolios@[j]).total_value_usd == sum_values(
                self.assets@,
                self.portfolios@[j].address,
            ) && self.portfolios@[j].total_assets == count_assets(
                self.assets@,
                self.portfolios@[j].address,
            )) by {
                lemma_sum_values_update(pre.assets@, idx, a1, self.portfolios@[j].address);
                if j != pi as int {
                    assert(pre.portfolios@[j].address != pre.portfolios@[pi as int].address);
                    assert(self.portfolios@[j] == pre.portfolios@[j]);
                }
            }
        }
        Ok(())
    }

    /// Append one immutable audit-trail entry referencing the portfolio at
    /// `ctx.portfolio_address`. Aggregates are untouched; only the
    /// portfolio's timestamp is refreshed. On success the result is the new
    /// record's index. On any error nothing changes.
    pub fn record_transaction(
        &mut self,
        ctx: RecordTransaction,
        transaction_id: Vec<u8>,
        amount: i64,
        transaction_type: Vec<u8>,
        category: Vec<u8>,
        description: Vec<u8>,
        now: i64,
    ) -> (r: Result<usize, TinTinError>)
        requires
            old(self).wf(),
        ensures
            final(self).wf(),
            match r {
                Ok(i) => {
                    &&& record_transaction_check(
                        *old(self),
                        ctx,
                        transaction_id@,
                        transaction_type@,
                        category@,
                        description@,
                    ) == Ok::<(), TinTinError>(())
                    &&& i == old(self).transactions@.len()
                    &&& final(self).transactions@ == old(self).transactions@.push(
                        new_transaction_record(
                            ctx.portfolio_address,
                            transaction_id,
                            amount,
                            transaction_type,
                            category,
                            description,
                            now,
                        ),
                    )
                    &&& ({
                        let k = portfolio_index_of(old(self).portfolios@, ctx.portfolio_address);
                        final(self).portfolios@ == old(self).portfolios@.update(
                            k,
                            portfolio_touched(old(self).portfolios@[k], now),
                        )
                    })
                    &&& final(self).assets@ == old(self).assets@
                    &&& final(self).goals@ == old(self).goals@
                },
                Err(e) => {
                    &&& record_transaction_check(
                        *old(self),
                        ctx,
                        transaction_id@,
                        transaction_type@,
                        category@,
                        description@,
                    ) == Err::<(), TinTinError>(e)
                    &&& *final(self) == *old(self)
                },
            },
            forall|i: int|
                0 <= i < old(self).portfolios@.len()
                    ==> (#[trigger] final(self).portfolios@[i]).total_assets >= old(
                    self,
                ).portfolios@[i].total_assets,
            forall|i: int|
                0 <= i < old(self).goals@.len() ==> ((#[trigger] old(
                    self,
                ).goals@[i]).is_completed ==> final(self).goals@[i].is_completed),
    {
        let pi = match self.find_portfolio(ctx.portfolio_address) {
            Some(i) => i,
            None => {
                return Err(TinTinError::InvalidAddress);
            },
        };
        proof {
            lemma_index_of_unique(self.portfolios@, ctx.portfolio_address, pi as int);
        }
        let p = self.portfolios[pi];
        if let Err(e) = validate_address(ctx.portfolio_address, &p.owner, p.bump) {
            return Err(e);
        }
        if !owner_eq(&ctx.caller, &p.owner) {
            return Err(TinTinError::Unauthorized);
        }
        if transaction_id.len() > MAX_NAME_FIELD || transaction_type.len() > MAX_SHORT_FIELD
            || category.len() > MAX_SHORT_FIELD || description.len() > MAX_DESCRIPTION_FIELD {
            return Err(TinTinError::InvalidInput);
        }
        let idx = self.transactions.len();
        self.portfolios[pi] = Portfolio { updated_at: now, ..p };
        self.transactions.push(
            TransactionRecord {
                portfolio: ctx.portfolio_address,
                transaction_id,
                amount,
                transaction_type,
                category,
                description,
                timestamp: now,
            },
        );
        proof {
            let pre = *old(self);
            assert forall|x: Address| has_portfolio(pre.portfolios@, x) implies has_portfolio(
                self.portfolios@,
                x,
            ) by {
                let w = choose|i: int|
                    0 <= i < pre.portfolios@.len() && pre.portfolios@[i].address == x;
                assert(self.portfolios@[w].address == x);
            }
            assert forall|j: int| 0 <= j < self.portfolios@.len() implies ((
            #[trigger] self.portfolios@[j]).total_value_usd == sum_values(
                self.assets@,
                self.portfolios@[j].address,
            ) && self.portfolios@[j].total_assets == count_assets(
                self.assets@,
                self.portfolios@[j].address,
            )) by {
                if j != pi as int {
                    assert(self.portfolios@[j] == pre.portfolios@[j]);
                }
            }
        }
        Ok(idx)
    }

    /// Create a savings goal referencing the portfolio at
    /// `ctx.portfolio_address`, with no progress and both timestamps set to
    /// `now`; the portfolio's timestamp is refreshed. On success the result
    /// is the new record's index. On any error nothing changes.
    pub fn create_goal(
        &mut self,
        ctx: CreateGoal,
        name: Vec<u8>,
        target_amount: u64,
        target_date: i64,
        category: Vec<u8>,
        now: i64,
    ) -> (r: Result<usize, TinTinError>)
        requires
            old(self).wf(),
        ensures
            final(self).wf(),
            match r {
                Ok(i) => {
                    &&& create_goal_check(*old(self), ctx, name@, target_amount, category@)
                        == Ok::<(), TinTinError>(())
                    &&& i == old(self).goals@.len()
                    &&& final(self).goals@ == old(self).goals@.push(
                        new_goal_record(
                            ctx.portfolio_address,
                            name,
                            target_amount,
                            target_date,
                            category,
                            now,
                        ),
                    )
                    &&& ({
                        let k = portfolio_index_of(old(self).portfolios@, ctx.portfolio_address);
                        final(self).portfolios@ == old(self).portfolios@.update(
                            k,
                            portfolio_touched(old(self).portfolios@[k], now),
                        )
                    })
                    &&& final(self).assets@ == old(self).assets@
                    &&& final(self).transactions@ == old(self).transactions@
                },
                Err(e) => {
                    &&& create_goal_check(*old(self), ctx, name@, target_amount, category@)
                        == Err::<(), TinTinError>(e)
                    &&& *final(self) == *old(self)
                },
            },
            forall|i: int|
                0 <= i < old(self).portfolios@.len()
                    ==> (#[trigger] final(self).portfolios@[i]).total_assets >= old(
                    self,
                ).portfolios@[i].total_assets,
            forall|i: int|
                0 <= i < old(self).goals@.len() ==> ((#[trigger] old(
                    self,
                ).goals@[i]).is_completed ==> final(self).goals@[i].is_completed),
    {
        let pi = match self.find_portfolio(ctx.portfolio_address) {
            Some(i) => i,
            None => {
                return Err(TinTinError::InvalidAddress);
            },
        };
        proof {
            lemma_index_of_unique(self.portfolios@, ctx.portfolio_address, pi as int);
        }
        let p = self.portfolios[pi];
        if let Err(e) = validate_address(ctx.portfolio_address, &p.owner, p.bump) {
            return Err(e);
        }
        if !owner_eq(&ctx.caller, &p.owner) {
            return Err(TinTinError::Unauthorized);
        }
        if name.len() > MAX_NAME_FIELD || category.len() > MAX_SHORT_FIELD {
            return Err(TinTinError::InvalidInput);
        }
        if target_amount == 0 {
            return Err(TinTinError::InvalidAmount);
        }
        let idx = self.goals.len();
        self.portfolios[pi] = Portfolio { updated_at: now, ..p };
        self.goals.push(
            FinancialGoal {
                portfolio: ctx.portfolio_address,
                name,
                target_amount,
                current_amount: 0,
                target_date,
                category,
                is_completed: false,
                created_at: now,
                updated_at: now,
            },
        );
        proof {
            let pre = *old(self);
            assert forall|x: Address| has_portfolio(pre.portfolios@, x) implies has_portfolio(
                self.portfolios@,
                x,
            ) by {
                let w = choose|i: int|
                    0 <= i < pre.portfolios@.len() && pre.portfolios@[i].address == x;
                assert(self.portfolios@[w].address == x);
            }
            assert forall|j: int| 0 <= j < self.portfolios@.len() implies ((
            #[trigger] self.portfolios@[j]).total_value_usd == sum_values(
                self.assets@,
                self.portfolios@[j].address,
            ) && self.portfolios@[j].total_assets == count_assets(
                self.assets@,
                self.portfolios@[j].address,
            )) by {
                if j != pi as int {
                    assert(self.portfolios@[j] == pre.portfolios@[j]);
                }
            }
        }
        Ok(idx)
    }

    /// Add `amount_to_add` to the targeted goal's progress; the goal
    /// completes, irreversibly, exactly when its progress reaches its
    /// target. Both the goal's and the portfolio's timestamps are
    /// refreshed. On any error nothing changes.
    pub fn update_goal_progress(
        &mut self,
        ctx: UpdateGoalProgress,
        amount_to_add: u64,
        now: i64,
    ) -> (r: Result<(), TinTinError>)
        requires
            old(self).wf(),
        ensures
            final(self).wf(),
            match r {
                Ok(()) => {
                    &&& update_goal_check(*old(self), ctx, amount_to_add) == Ok::<
                        (),
                        TinTinError,
                    >(())
                    &&& final(self).goals@ == old(self).goals@.update(
                        ctx.goal_index as int,
                        goal_after_progress(
                            old(self).goals@[ctx.goal_index as int],
                            amount_to_add,
                            now,
                        ),
                    )
                    &&& ({
                        let k = portfolio_index_of(old(self).portfolios@, ctx.portfolio_address);
                        final(self).portfolios@ == old(self).portfolios@.update(
                            k,
                            portfolio_touched(old(self).portfolios@[k], now),
                        )
                    })
                    &&& final(self).assets@ == old(self).assets@
                    &&& final(self).transactions@ == old(self).transactions@
                },
                Err(e) => {
                    &&& update_goal_check(*old(self), ctx, amount_to_add) == Err::<
                        (),
                        TinTinError,
                    >(e)
                    &&& *final(self) == *old(self)
                },
            },
            forall|i: int|
                0 <= i < old(self).portfolios@.len()
                    ==> (#[trigger] final(self).portfolios@[i]).total_assets >= old(
                    self,
                ).portfolios@[i].total_assets,
            forall|i: int|
                0 <= i < old(self).goals@.len() ==> ((#[trigger] old(
                    self,
                ).goals@[i]).is_completed ==> final(self).goals@[i].is_completed),
    {
        let pi = match self.find_portfolio(ctx.portfolio_address) {
            Some(i) => i,
            None => {
                return Err(TinTinError::InvalidAddress);
            },
        };
        proof {
            lemma_index_of_unique(self.portfolios@, ctx.portfolio_address, pi as int);
        }
        let p = self.portfolios[pi];
        if let Err(e) = validate_address(ctx.portfolio_address, &p.owner, p.bump) {
            return Err(e);
        }
        if !owner_eq(&ctx.caller, &p.owner) {
            return Err(TinTinError::Unauthorized);
        }
        if ctx.goal_index >= self.goals.len() {
            return Err(TinTinError::GoalNotFound);
        }
        if self.goals[ctx.goal_index].portfolio != ctx.portfolio_address {
            return Err(TinTinError::GoalNotFound);
        }
        let current = self.goals[ctx.goal_index].current_amount;
        if current > u64::MAX - amount_to_add {
            return Err(TinTinError::Overflow);
        }
        let new_current = current + amount_to_add;
        self.goals[ctx.goal_index].current_amount = new_current;
        if new_current >= self.goals[ctx.goal_index].target_amount {
            self.goals[ctx.goal_index].is_completed = true;
        }
        self.goals[ctx.goal_index].updated_at = now;
        self.portfolios[pi] = Portfolio { updated_at: now, ..p };
        proof {
            let pre = *old(self);
            let gi = ctx.goal_index as int;
            assert(self.goals@ =~= pre.goals@.update(
                gi,
                goal_after_progress(pre.goals@[gi], amount_to_add, now),
            ));
            assert forall|x: Address| has_portfolio(pre.portfolios@, x) implies has_portfolio(
                self.portfolios@,
                x,
            ) by {
                let w = choose|i: int|
                    0 <= i < pre.portfolios@.len() && pre.portfolios@[i].address == x;
                assert(self.portfolios@[w].address == x);
            }
            assert forall|j: int| 0 <= j < self.portfolios@.len() implies ((
            #[trigger] self.portfolios@[j]).total_value_usd == sum_values(
                self.assets@,
                self.portfolios@[j].address,
            ) && self.portfolios@[j].total_assets == count_assets(
                self.assets@,
                self.portfolios@[j].address,
            )) by {
                if j != pi as int {
                    assert(self.portfolios@[j] == pre.portfolios@[j]);
                }
            }
        }
        Ok(())
    }
}

} // verus!
