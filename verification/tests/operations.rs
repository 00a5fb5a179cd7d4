use tintin_finance::address::derive_address;
use tintin_finance::errors::TinTinError;
use tintin_finance::records::{CryptoAsset, Portfolio};
use tintin_finance::ledger::{
    AddAsset, CreateGoal, InitializePortfolio, Ledger, RecordTransaction, UpdateAsset,
    UpdateGoalProgress,
};

const NOW: i64 = 1_700_000_000;

fn owner_a() -> [u8; 32] {
    [1u8; 32]
}

fn owner_b() -> [u8; 32] {
    [2u8; 32]
}

fn ledger_with_portfolio() -> (Ledger, u64) {
    let mut ledger = Ledger::new();
    let p = ledger
        .initialize_portfolio(InitializePortfolio { caller: owner_a() }, 0, NOW)
        .unwrap();
    (ledger, p.address)
}

fn add_ctx(addr: u64) -> AddAsset {
    AddAsset { caller: owner_a(), portfolio_address: addr }
}

#[test]
fn scenario_a_initialize_creates_empty_portfolio() {
    let mut ledger = Ledger::new();
    let p = ledger
        .initialize_portfolio(InitializePortfolio { caller: owner_a() }, 0, NOW)
        .unwrap();
    assert_eq!(p.total_assets, 0);
    assert_eq!(p.total_value_usd, 0);
    assert_eq!(p.owner, owner_a());
    assert_eq!(p.created_at, NOW);
    assert_eq!(p.updated_at, NOW);
    assert_eq!(p.address, derive_address(&owner_a(), 0));
    assert_eq!(ledger.portfolios.len(), 1);
}

#[test]
fn initialize_rejects_duplicate_address() {
    let (mut ledger, _) = ledger_with_portfolio();
    let r = ledger.initialize_portfolio(InitializePortfolio { caller: owner_a() }, 0, NOW + 1);
    assert_eq!(r, Err(TinTinError::AlreadyExists));
    assert_eq!(ledger.portfolios.len(), 1);
}

#[test]
fn initialize_allows_same_owner_under_another_disambiguator() {
    let (mut ledger, addr) = ledger_with_portfolio();
    let p = ledger
        .initialize_portfolio(InitializePortfolio { caller: owner_a() }, 1, NOW)
        .unwrap();
    assert_ne!(p.address, addr);
    assert_eq!(ledger.portfolios.len(), 2);
}

#[test]
fn scenario_b_add_asset_values_portfolio() {
    let (mut ledger, addr) = ledger_with_portfolio();
    let idx = ledger
        .add_asset(add_ctx(addr), b"BTC".to_vec(), 1_000_000, 50_000_000_000, b"bitcoin".to_vec(), NOW + 1)
        .unwrap();
    assert_eq!(idx, 0);
    assert_eq!(ledger.portfolios[0].total_value_usd, 50_000_000_000);
    assert_eq!(ledger.portfolios[0].total_assets, 1);
    assert_eq!(ledger.portfolios[0].updated_at, NOW + 1);
    assert_eq!(ledger.assets[0].amount, 1_000_000);
    assert_eq!(ledger.assets[0].price_usd, 50_000_000_000);
    assert_eq!(ledger.assets[0].portfolio, addr);
    assert_eq!(ledger.assets[0].symbol, b"BTC".to_vec());
    assert_eq!(ledger.assets[0].last_updated, NOW + 1);
}

#[test]
fn scenario_c_update_asset_revalues_portfolio() {
    let (mut ledger, addr) = ledger_with_portfolio();
    ledger
        .add_asset(add_ctx(addr), b"BTC".to_vec(), 1_000_000, 50_000_000_000, b"bitcoin".to_vec(), NOW + 1)
        .unwrap();
    let ctx = UpdateAsset { caller: owner_a(), portfolio_address: addr, asset_index: 0 };
    ledger.update_asset(ctx, Some(2_000_000), None, NOW + 2).unwrap();
    assert_eq!(ledger.portfolios[0].total_value_usd, 100_000_000_000);
    assert_eq!(ledger.portfolios[0].total_assets, 1);
    assert_eq!(ledger.assets[0].amount, 2_000_000);
    assert_eq!(ledger.assets[0].price_usd, 50_000_000_000);
    assert_eq!(ledger.assets[0].last_updated, NOW + 2);
}

#[test]
fn update_asset_price_only_keeps_amount() {
    let (mut ledger, addr) = ledger_with_portfolio();
    ledger
        .add_asset(add_ctx(addr), b"ETH".to_vec(), 3_000_000, 2_000_000_000, b"ethereum".to_vec(), NOW)
        .unwrap();
    let ctx = UpdateAsset { caller: owner_a(), portfolio_address: addr, asset_index: 0 };
    ledger.update_asset(ctx, None, Some(4_000_000_000), NOW + 1).unwrap();
    assert_eq!(ledger.assets[0].amount, 3_000_000);
    assert_eq!(ledger.assets[0].price_usd, 4_000_000_000);
    assert_eq!(ledger.portfolios[0].total_value_usd, 12_000_000_000);
}

#[test]
fn total_value_matches_asset_sum() {
    let (mut ledger, addr) = ledger_with_portfolio();
    ledger
        .add_asset(add_ctx(addr), b"BTC".to_vec(), 1_000_000, 50_000_000_000, b"bitcoin".to_vec(), NOW)
        .unwrap();
    ledger
        .add_asset(add_ctx(addr), b"ETH".to_vec(), 123_456_789, 987_654, b"ethereum".to_vec(), NOW)
        .unwrap();
    let expected: u64 = 50_000_000_000 + 121_932_591;
    assert_eq!(ledger.portfolios[0].total_value_usd, expected);
    assert_eq!(ledger.portfolios[0].total_assets, 2);
}

#[test]
fn add_asset_floor_rounds_down() {
    let (mut ledger, addr) = ledger_with_portfolio();
    ledger
        .add_asset(add_ctx(addr), b"DUST".to_vec(), 1, 1, b"testnet".to_vec(), NOW)
        .unwrap();
    assert_eq!(ledger.portfolios[0].total_value_usd, 0);
    assert_eq!(ledger.portfolios[0].total_assets, 1);
}

#[test]
fn add_asset_wide_product_fits() {
    // The raw product of amount and price wraps a 64-bit multiply, but the
    // scaled value still fits; the wide intermediate must get it right.
    let (mut ledger, addr) = ledger_with_portfolio();
    let amount: u64 = 1 << 40;
    let price: u64 = 1 << 40;
    ledger
        .add_asset(add_ctx(addr), b"BIG".to_vec(), amount, price, b"mainnet".to_vec(), NOW)
        .unwrap();
    assert_eq!(ledger.portfolios[0].total_value_usd, 1_208_925_819_614_629_174);
}

#[test]
fn add_asset_rejects_overflowing_value() {
    let (mut ledger, addr) = ledger_with_portfolio();
    let r = ledger.add_asset(
        add_ctx(addr),
        b"MAX".to_vec(),
        u64::MAX,
        u64::MAX,
        b"mainnet".to_vec(),
        NOW,
    );
    assert_eq!(r, Err(TinTinError::Overflow));
    assert_eq!(ledger.portfolios[0].total_value_usd, 0);
    assert_eq!(ledger.assets.len(), 0);
}

#[test]
fn add_asset_requires_owner() {
    let (mut ledger, addr) = ledger_with_portfolio();
    let ctx = AddAsset { caller: owner_b(), portfolio_address: addr };
    let r = ledger.add_asset(ctx, b"BTC".to_vec(), 1, 1, b"bitcoin".to_vec(), NOW);
    assert_eq!(r, Err(TinTinError::Unauthorized));
    assert_eq!(ledger.assets.len(), 0);
}

#[test]
fn add_asset_rejects_unknown_address() {
    let (mut ledger, addr) = ledger_with_portfolio();
    let ctx = AddAsset { caller: owner_a(), portfolio_address: addr.wrapping_add(1) };
    let r = ledger.add_asset(ctx, b"BTC".to_vec(), 1, 1, b"bitcoin".to_vec(), NOW);
    assert_eq!(r, Err(TinTinError::InvalidAddress));
}

#[test]
fn add_asset_rejects_long_symbol() {
    let (mut ledger, addr) = ledger_with_portfolio();
    let r = ledger.add_asset(add_ctx(addr), vec![b'x'; 33], 1, 1, b"bitcoin".to_vec(), NOW);
    assert_eq!(r, Err(TinTinError::InvalidInput));
}

#[test]
fn add_asset_rejects_long_network() {
    let (mut ledger, addr) = ledger_with_portfolio();
    let r = ledger.add_asset(add_ctx(addr), b"BTC".to_vec(), 1, 1, vec![b'x'; 33], NOW);
    assert_eq!(r, Err(TinTinError::InvalidInput));
}

#[test]
fn add_asset_rejects_zero_amount() {
    let (mut ledger, addr) = ledger_with_portfolio();
    let r = ledger.add_asset(add_ctx(addr), b"BTC".to_vec(), 0, 1, b"bitcoin".to_vec(), NOW);
    assert_eq!(r, Err(TinTinError::InvalidAmount));
}

#[test]
fn add_asset_rejects_zero_price() {
    let (mut ledger, addr) = ledger_with_portfolio();
    let r = ledger.add_asset(add_ctx(addr), b"BTC".to_vec(), 1, 0, b"bitcoin".to_vec(), NOW);
    assert_eq!(r, Err(TinTinError::InvalidAmount));
}

#[test]
fn update_asset_mismatched_backref_changes_nothing() {
    let mut ledger = Ledger::new();
    let p1 = ledger
        .initialize_portfolio(InitializePortfolio { caller: owner_a() }, 0, NOW)
        .unwrap();
    let p2 = ledger
        .initialize_portfolio(InitializePortfolio { caller: owner_b() }, 0, NOW)
        .unwrap();
    let ctx = AddAsset { caller: owner_a(), portfolio_address: p1.address };
    ledger
        .add_asset(ctx, b"BTC".to_vec(), 1_000_000, 50_000_000_000, b"bitcoin".to_vec(), NOW)
        .unwrap();
    // The asset references portfolio 1; mutate it through portfolio 2.
    let bad = UpdateAsset { caller: owner_b(), portfolio_address: p2.address, asset_index: 0 };
    let r = ledger.update_asset(bad, Some(7), None, NOW + 5);
    assert_eq!(r, Err(TinTinError::AssetNotFound));
    assert_eq!(ledger.assets[0].amount, 1_000_000);
    assert_eq!(ledger.assets[0].last_updated, NOW);
    assert_eq!(ledger.portfolios[0].total_value_usd, 50_000_000_000);
    assert_eq!(ledger.portfolios[1].total_value_usd, 0);
    assert_eq!(ledger.portfolios[1].updated_at, NOW);
}

#[test]
fn update_asset_rejects_missing_index() {
    let (mut ledger, addr) = ledger_with_portfolio();
    let ctx = UpdateAsset { caller: owner_a(), portfolio_address: addr, asset_index: 0 };
    assert_eq!(ledger.update_asset(ctx, Some(1), None, NOW), Err(TinTinError::AssetNotFound));
}

#[test]
fn update_asset_detects_aggregate_corruption() {
    // A store whose invariant is already broken: the portfolio claims a zero
    // total while an asset referencing it is worth 50_000_000_000.
    let owner = owner_a();
    let addr = derive_address(&owner, 0);
    let mut ledger = Ledger {
        portfolios: vec![Portfolio {
            address: addr,
            owner,
            bump: 0,
            total_assets: 1,
            total_value_usd: 0,
            created_at: NOW,
            updated_at: NOW,
        }],
        assets: vec![CryptoAsset {
            portfolio: addr,
            symbol: b"BTC".to_vec(),
            amount: 1_000_000,
            price_usd: 50_000_000_000,
            network: b"bitcoin".to_vec(),
            last_updated: NOW,
        }],
        transactions: Vec::new(),
        goals: Vec::new(),
    };
    let ctx = UpdateAsset { caller: owner, portfolio_address: addr, asset_index: 0 };
    let r = ledger.update_asset(ctx, Some(0), None, NOW + 1);
    assert_eq!(r, Err(TinTinError::AggregateCorruption));
    assert_eq!(ledger.assets[0].amount, 1_000_000);
}

#[test]
fn record_transaction_touches_only_the_timestamp() {
    let (mut ledger, addr) = ledger_with_portfolio();
    ledger
        .add_asset(add_ctx(addr), b"BTC".to_vec(), 1_000_000, 50_000_000_000, b"bitcoin".to_vec(), NOW)
        .unwrap();
    let ctx = RecordTransaction { caller: owner_a(), portfolio_address: addr };
    let idx = ledger
        .record_transaction(
            ctx,
            b"tx-1".to_vec(),
            -250,
            b"withdrawal".to_vec(),
            b"fees".to_vec(),
            b"network fee".to_vec(),
            NOW + 3,
        )
        .unwrap();
    assert_eq!(idx, 0);
    assert_eq!(ledger.transactions[0].amount, -250);
    assert_eq!(ledger.transactions[0].portfolio, addr);
    assert_eq!(ledger.transactions[0].timestamp, NOW + 3);
    assert_eq!(ledger.portfolios[0].total_value_usd, 50_000_000_000);
    assert_eq!(ledger.portfolios[0].total_assets, 1);
    assert_eq!(ledger.portfolios[0].updated_at, NOW + 3);
}

#[test]
fn record_transaction_allows_duplicate_ids() {
    let (mut ledger, addr) = ledger_with_portfolio();
    let ctx = RecordTransaction { caller: owner_a(), portfolio_address: addr };
    for _ in 0..2 {
        ledger
            .record_transaction(
                ctx,
                b"same-id".to_vec(),
                10,
                b"deposit".to_vec(),
                b"salary".to_vec(),
                b"".to_vec(),
                NOW,
            )
            .unwrap();
    }
    assert_eq!(ledger.transactions.len(), 2);
}

#[test]
fn record_transaction_rejects_long_description() {
    let (mut ledger, addr) = ledger_with_portfolio();
    let ctx = RecordTransaction { caller: owner_a(), portfolio_address: addr };
    let r = ledger.record_transaction(
        ctx,
        b"tx-1".to_vec(),
        10,
        b"deposit".to_vec(),
        b"salary".to_vec(),
        vec![b'x'; 129],
        NOW,
    );
    assert_eq!(r, Err(TinTinError::InvalidInput));
    assert_eq!(ledger.transactions.len(), 0);
}

#[test]
fn scenario_d_goal_completes_at_target() {
    let (mut ledger, addr) = ledger_with_portfolio();
    let ctx = CreateGoal { caller: owner_a(), portfolio_address: addr };
    let gi = ledger
        .create_goal(ctx, b"vacation".to_vec(), 1_000_000, NOW + 1_000_000, b"travel".to_vec(), NOW)
        .unwrap();
    assert_eq!(gi, 0);
    assert_eq!(ledger.goals[0].current_amount, 0);
    assert!(!ledger.goals[0].is_completed);
    let up = UpdateGoalProgress { caller: owner_a(), portfolio_address: addr, goal_index: 0 };
    ledger.update_goal_progress(up, 1_000_000, NOW + 1).unwrap();
    assert_eq!(ledger.goals[0].current_amount, 1_000_000);
    assert!(ledger.goals[0].is_completed);
    assert_eq!(ledger.goals[0].updated_at, NOW + 1);
}

#[test]
fn scenario_e_completed_goal_accepts_overshoot() {
    let (mut ledger, addr) = ledger_with_portfolio();
    let ctx = CreateGoal { caller: owner_a(), portfolio_address: addr };
    ledger
        .create_goal(ctx, b"vacation".to_vec(), 1_000_000, NOW + 1_000_000, b"travel".to_vec(), NOW)
        .unwrap();
    let up = UpdateGoalProgress { caller: owner_a(), portfolio_address: addr, goal_index: 0 };
    ledger.update_goal_progress(up, 1_000_000, NOW + 1).unwrap();
    ledger.update_goal_progress(up, 1, NOW + 2).unwrap();
    assert_eq!(ledger.goals[0].current_amount, 1_000_001);
    assert!(ledger.goals[0].is_completed);
}

#[test]
fn goal_progress_below_target_stays_in_progress() {
    let (mut ledger, addr) = ledger_with_portfolio();
    let ctx = CreateGoal { caller: owner_a(), portfolio_address: addr };
    ledger
        .create_goal(ctx, b"car".to_vec(), 1_000_000, NOW, b"savings".to_vec(), NOW)
        .unwrap();
    let up = UpdateGoalProgress { caller: owner_a(), portfolio_address: addr, goal_index: 0 };
    ledger.update_goal_progress(up, 999_999, NOW).unwrap();
    assert_eq!(ledger.goals[0].current_amount, 999_999);
    assert!(!ledger.goals[0].is_completed);
}

#[test]
fn create_goal_rejects_zero_target() {
    let (mut ledger, addr) = ledger_with_portfolio();
    let ctx = CreateGoal { caller: owner_a(), portfolio_address: addr };
    let r = ledger.create_goal(ctx, b"car".to_vec(), 0, NOW, b"savings".to_vec(), NOW);
    assert_eq!(r, Err(TinTinError::InvalidAmount));
    assert_eq!(ledger.goals.len(), 0);
}

#[test]
fn create_goal_rejects_long_name() {
    let (mut ledger, addr) = ledger_with_portfolio();
    let ctx = CreateGoal { caller: owner_a(), portfolio_address: addr };
    let r = ledger.create_goal(ctx, vec![b'x'; 65], 1, NOW, b"savings".to_vec(), NOW);
    assert_eq!(r, Err(TinTinError::InvalidInput));
}

#[test]
fn update_goal_progress_rejects_overflow() {
    let (mut ledger, addr) = ledger_with_portfolio();
    let ctx = CreateGoal { caller: owner_a(), portfolio_address: addr };
    ledger
        .create_goal(ctx, b"moon".to_vec(), 10, NOW, b"savings".to_vec(), NOW)
        .unwrap();
    let up = UpdateGoalProgress { caller: owner_a(), portfolio_address: addr, goal_index: 0 };
    ledger.update_goal_progress(up, u64::MAX, NOW).unwrap();
    let r = ledger.update_goal_progress(up, 1, NOW + 1);
    assert_eq!(r, Err(TinTinError::Overflow));
    assert_eq!(ledger.goals[0].current_amount, u64::MAX);
    assert!(ledger.goals[0].is_completed);
}

#[test]
fn update_goal_mismatched_backref_changes_nothing() {
    let mut ledger = Ledger::new();
    let p1 = ledger
        .initialize_portfolio(InitializePortfolio { caller: owner_a() }, 0, NOW)
        .unwrap();
    let p2 = ledger
        .initialize_portfolio(InitializePortfolio { caller: owner_b() }, 0, NOW)
        .unwrap();
    let ctx = CreateGoal { caller: owner_a(), portfolio_address: p1.address };
    ledger
        .create_goal(ctx, b"boat".to_vec(), 5, NOW, b"savings".to_vec(), NOW)
        .unwrap();
    // The goal references portfolio 1; advance it through portfolio 2.
    let bad = UpdateGoalProgress { caller: owner_b(), portfolio_address: p2.address, goal_index: 0 };
    let r = ledger.update_goal_progress(bad, 5, NOW + 1);
    assert_eq!(r, Err(TinTinError::GoalNotFound));
    assert_eq!(ledger.goals[0].current_amount, 0);
    assert!(!ledger.goals[0].is_completed);
    assert_eq!(ledger.portfolios[1].updated_at, NOW);
}

#[test]
fn total_value_tracks_mixed_operations() {
    let (mut ledger, addr) = ledger_with_portfolio();
    ledger
        .add_asset(add_ctx(addr), b"BTC".to_vec(), 1_000_000, 50_000_000_000, b"bitcoin".to_vec(), NOW)
        .unwrap();
    ledger
        .add_asset(add_ctx(addr), b"ETH".to_vec(), 2_000_000, 3_000_000, b"ethereum".to_vec(), NOW)
        .unwrap();
    let ctx = UpdateAsset { caller: owner_a(), portfolio_address: addr, asset_index: 1 };
    ledger.update_asset(ctx, None, Some(5_000_000), NOW + 1).unwrap();
    // 1.0 * 50_000.0 scaled + 2.0 * 5.0 scaled
    assert_eq!(ledger.portfolios[0].total_value_usd, 50_000_000_000 + 10_000_000);
    assert_eq!(ledger.portfolios[0].total_assets, 2);
}

#[test]
fn totals_only_increase_across_operations() {
    let (mut ledger, addr) = ledger_with_portfolio();
    let mut seen: Vec<u32> = vec![ledger.portfolios[0].total_assets];
    ledger
        .add_asset(add_ctx(addr), b"BTC".to_vec(), 1, 2_000_000, b"bitcoin".to_vec(), NOW)
        .unwrap();
    seen.push(ledger.portfolios[0].total_assets);
    ledger
        .add_asset(add_ctx(addr), b"ETH".to_vec(), 3, 4_000_000, b"ethereum".to_vec(), NOW)
        .unwrap();
    seen.push(ledger.portfolios[0].total_assets);
    let ctx = UpdateAsset { caller: owner_a(), portfolio_address: addr, asset_index: 0 };
    ledger.update_asset(ctx, Some(5), None, NOW).unwrap();
    seen.push(ledger.portfolios[0].total_assets);
    for w in seen.windows(2) {
        assert!(w[0] <= w[1]);
    }
    assert_eq!(*seen.last().unwrap(), 2);
}
