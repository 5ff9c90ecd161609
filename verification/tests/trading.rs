use token_swap_amm::errors::AmmError;
use token_swap_amm::ids::{canonical_pair, AccountId, AssetId, MarketId};
use token_swap_amm::market::Market;
use token_swap_amm::registry::PoolRegistry;
use token_swap_amm::swap::{check_invariant, execute, quote, reserve_product};

fn asset(b: &[u8]) -> AssetId {
    AssetId::new(b.to_vec())
}

#[test]
fn quote_million_pool_thirty_basis_points() {
    // Reserves (1_000_000, 1_000_000), fee 30 bp, input 10_000:
    // taxed input 10_000 - 30 = 9_970,
    // output floor(9_970 * 1_000_000 / 1_009_970) = 9_871.
    let out = quote(1_000_000, 1_000_000, 30, 10_000, 0).unwrap();
    assert_eq!(out, 9_871);
    // The quote passes at exactly the minimum and fails one unit above it.
    assert_eq!(quote(1_000_000, 1_000_000, 30, 10_000, 9_871), Ok(9_871));
    assert_eq!(
        quote(1_000_000, 1_000_000, 30, 10_000, 9_872),
        Err(AmmError::OutputBelowMinimum)
    );
}

#[test]
fn quote_without_fee_follows_curve_exactly() {
    // 10 in against (100, 100): floor(10 * 100 / 110) = 9.
    assert_eq!(quote(100, 100, 0, 10, 0), Ok(9));
}

#[test]
fn swap_product_never_shrinks() {
    let (ra, rb) = (1_000_000u64, 1_000_000u64);
    let before = reserve_product(ra, rb);
    let o = execute(ra, rb, 30, true, 10_000, 0, 10_000).unwrap();
    let new_a = ra + o.taxed_input;
    let new_b = rb - o.output;
    assert!(check_invariant(before, new_a, new_b).is_ok());
    assert!(reserve_product(new_a, new_b) >= before);
}

#[test]
fn swap_checks_balance_before_anything_else() {
    // One unit short of the input: refused before any quoting.
    let r = execute(1_000_000, 1_000_000, 30, true, 10_000, 0, 9_999);
    assert_eq!(r, Err(AmmError::InsufficientBalance));
}

#[test]
fn swap_direction_picks_reserves() {
    // Asymmetric reserves: the two directions quote differently.
    let a_to_b = execute(1_000_000, 2_000_000, 0, true, 10_000, 0, 10_000).unwrap();
    let b_to_a = execute(1_000_000, 2_000_000, 0, false, 10_000, 0, 10_000).unwrap();
    assert_eq!(a_to_b.output, 10_000u64 * 2_000_000 / 1_010_000);
    assert_eq!(b_to_a.output, 10_000u64 * 1_000_000 / 2_010_000);
}

#[test]
fn invariant_check_rejects_shrinkage() {
    let before = reserve_product(1000, 1000);
    assert!(check_invariant(before, 1000, 1000).is_ok());
    assert!(check_invariant(before, 1100, 1000).is_ok());
    assert_eq!(
        check_invariant(before, 1000, 999),
        Err(AmmError::InvariantViolated)
    );
}

#[test]
fn asset_order_is_byte_lexicographic() {
    let a = asset(b"\x01\x02");
    let b = asset(b"\x01\x03");
    let c = asset(b"\x01");
    assert!(a.lt(&b));
    assert!(!b.lt(&a));
    assert!(c.lt(&a));
    assert!(!a.lt(&a));
    assert!(a.eq_id(&a));
    assert!(!a.eq_id(&b));
}

#[test]
fn canonical_pair_sorts_both_presentations() {
    let (x, y) = canonical_pair(asset(b"beta"), asset(b"alpha"));
    assert_eq!(x.bytes, b"alpha".to_vec());
    assert_eq!(y.bytes, b"beta".to_vec());
    let (x, y) = canonical_pair(asset(b"alpha"), asset(b"beta"));
    assert_eq!(x.bytes, b"alpha".to_vec());
    assert_eq!(y.bytes, b"beta".to_vec());
}

#[test]
fn registry_creates_and_looks_up() {
    let mut reg = PoolRegistry::new();
    let m = MarketId::new(b"market".to_vec());
    let a = asset(b"aaa");
    let b = asset(b"bbb");
    let h = reg.create(&m, &a, &b, 30).unwrap();
    assert_eq!(h, 0);
    assert_eq!(reg.len(), 1);
    assert_eq!(reg.lookup(&m, &a, &b), Ok(0));
    let p = reg.get(h);
    assert_eq!(p.fee_bp, 30);
    assert!(p.asset_a.eq_id(&a));
    assert!(p.asset_b.eq_id(&b));
}

#[test]
fn registry_rejects_duplicate_key() {
    let mut reg = PoolRegistry::new();
    let m = MarketId::new(b"market".to_vec());
    let a = asset(b"aaa");
    let b = asset(b"bbb");
    reg.create(&m, &a, &b, 30).unwrap();
    assert_eq!(reg.create(&m, &a, &b, 30), Err(AmmError::DuplicatePool));
    // A different market is a different key.
    let m2 = MarketId::new(b"other".to_vec());
    assert_eq!(reg.create(&m2, &a, &b, 30), Ok(1));
}

#[test]
fn registry_rejects_unordered_pair() {
    let mut reg = PoolRegistry::new();
    let m = MarketId::new(b"market".to_vec());
    let a = asset(b"aaa");
    let b = asset(b"bbb");
    assert_eq!(reg.create(&m, &b, &a, 30), Err(AmmError::OrderingViolation));
    assert_eq!(reg.create(&m, &a, &a, 30), Err(AmmError::OrderingViolation));
}

#[test]
fn registry_lookup_missing_key() {
    let reg = PoolRegistry::new();
    let m = MarketId::new(b"market".to_vec());
    assert_eq!(
        reg.lookup(&m, &asset(b"aaa"), &asset(b"bbb")),
        Err(AmmError::NotFound)
    );
}

#[test]
fn fee_boundary_at_pool_creation() {
    // 10000 basis points is rejected, 9999 is accepted.
    let mut reg = PoolRegistry::new();
    let m = MarketId::new(b"market".to_vec());
    let a = asset(b"aaa");
    let b = asset(b"bbb");
    assert_eq!(reg.create(&m, &a, &b, 10000), Err(AmmError::InvalidFee));
    assert!(reg.create(&m, &a, &b, 9999).is_ok());
}

#[test]
fn fee_boundary_at_market_creation() {
    let id = MarketId::new(b"market".to_vec());
    let admin = AccountId::new(b"admin".to_vec());
    let r = Market::new(id, admin, 10000);
    assert!(matches!(r, Err(AmmError::InvalidFee)));
    let id = MarketId::new(b"market".to_vec());
    let admin = AccountId::new(b"admin".to_vec());
    let m = Market::new(id, admin, 9999).unwrap();
    assert_eq!(m.fee_bp, 9999);
}

#[test]
fn market_facade_runs_full_flow() {
    let id = MarketId::new(b"market".to_vec());
    let admin = AccountId::new(b"admin".to_vec());
    let market = Market::new(id, admin, 30).unwrap();
    let mut reg = PoolRegistry::new();
    let a = asset(b"aaa");
    let b = asset(b"bbb");
    market.create_pool(&mut reg, &a, &b).unwrap();

    // Bootstrap deposit through the facade.
    let d = market
        .deposit(&reg, &a, &b, 0, 0, 0, 1_000_000, 1_000_000, 1_000_000, 1_000_000)
        .unwrap();
    assert_eq!(d.minted_shares, 1_000_000 - 100);

    // Swap through the facade, against the post-deposit reserves.
    let s = market
        .swap(&reg, &a, &b, 1_000_000, 1_000_000, true, 10_000, 0, 10_000)
        .unwrap();
    assert_eq!(s.taxed_input, 9_970);
    assert_eq!(s.output, 9_871);

    // Withdraw through the facade.
    let w = market
        .withdraw(&reg, &a, &b, 1_009_970, 990_129, d.minted_shares, 100_000, d.minted_shares)
        .unwrap();
    assert_eq!(w.out_a, 100_000u64 * 1_009_970 / (999_900 + 100));
    assert_eq!(w.out_b, 100_000u64 * 990_129 / (999_900 + 100));
}

#[test]
fn market_facade_reports_missing_pool() {
    let id = MarketId::new(b"market".to_vec());
    let admin = AccountId::new(b"admin".to_vec());
    let market = Market::new(id, admin, 30).unwrap();
    let reg = PoolRegistry::new();
    let a = asset(b"aaa");
    let b = asset(b"bbb");
    let r = market.deposit(&reg, &a, &b, 0, 0, 0, 1000, 1000, 1000, 1000);
    assert_eq!(r, Err(AmmError::NotFound));
    let r = market.withdraw(&reg, &a, &b, 1000, 1000, 900, 1, 1);
    assert_eq!(r, Err(AmmError::NotFound));
    let r = market.swap(&reg, &a, &b, 1000, 1000, true, 10, 0, 10);
    assert_eq!(r, Err(AmmError::NotFound));
}
