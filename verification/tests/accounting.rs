use token_swap_amm::errors::AmmError;
use token_swap_amm::liquidity::{plan_deposit, plan_withdraw};
use token_swap_amm::math::sqrt_floor_u128;
use token_swap_amm::MINIMUM_LIQUIDITY;

#[test]
fn sqrt_floor_small_values() {
    assert_eq!(sqrt_floor_u128(0), 0);
    assert_eq!(sqrt_floor_u128(1), 1);
    assert_eq!(sqrt_floor_u128(3), 1);
    assert_eq!(sqrt_floor_u128(4), 2);
    assert_eq!(sqrt_floor_u128(99), 9);
    assert_eq!(sqrt_floor_u128(100), 10);
    assert_eq!(sqrt_floor_u128(1_000_000), 1000);
}

#[test]
fn sqrt_floor_largest_radicand() {
    // floor(sqrt(2^128 - 1)) is the largest 64-bit value.
    assert_eq!(sqrt_floor_u128(u128::MAX), u64::MAX);
    let exact = (u64::MAX as u128) * (u64::MAX as u128);
    assert_eq!(sqrt_floor_u128(exact), u64::MAX);
    assert_eq!(sqrt_floor_u128(exact - 1), u64::MAX - 1);
}

#[test]
fn bootstrap_deposit_mints_root_minus_locked() {
    // A first deposit of (1000, 1000) mints floor(sqrt(1000*1000)) - 100.
    let o = plan_deposit(0, 0, 0, 1000, 1000, 1000, 1000).unwrap();
    assert_eq!(o.used_a, 1000);
    assert_eq!(o.used_b, 1000);
    assert_eq!(o.minted_shares, 900);
}

#[test]
fn bootstrap_deposit_below_locked_minimum_fails() {
    // floor(sqrt(99*99)) = 99 < 100: refused, nothing is consumed.
    let r = plan_deposit(0, 0, 0, 99, 99, 99, 99);
    assert_eq!(r, Err(AmmError::DepositTooSmall));
}

#[test]
fn bootstrap_deposit_at_locked_minimum_mints_nothing() {
    // floor(sqrt(100*100)) = 100 exactly: accepted, zero shares minted.
    let o = plan_deposit(0, 0, 0, 100, 100, 100, 100).unwrap();
    assert_eq!(o.used_a, 100);
    assert_eq!(o.used_b, 100);
    assert_eq!(o.minted_shares, 0);
}

#[test]
fn deposit_clamps_desired_to_balance() {
    // The depositor owns less than it asks to deposit; the deposit pulls
    // only the balance and that is not an error.
    let o = plan_deposit(0, 0, 0, 5000, 5000, 1000, 1000).unwrap();
    assert_eq!(o.used_a, 1000);
    assert_eq!(o.used_b, 1000);
    assert_eq!(o.minted_shares, 900);
}

#[test]
fn deposit_into_pool_keeps_price_using_all_of_a() {
    // Reserves 1:2; all of desired A fits, B is scaled to the ratio.
    let o = plan_deposit(1_000_000, 2_000_000, 900_000, 10_000, 50_000, 10_000, 50_000).unwrap();
    assert_eq!(o.used_a, 10_000);
    assert_eq!(o.used_b, 20_000);
    // Shares in proportion to the A axis: 10_000 * 900_000 / 1_000_000.
    assert_eq!(o.minted_shares, 9_000);
}

#[test]
fn deposit_into_pool_keeps_price_using_all_of_b() {
    // Reserves 1:2; desired B is the binding side, A is scaled down.
    let o = plan_deposit(1_000_000, 2_000_000, 900_000, 10_000, 5_000, 10_000, 5_000).unwrap();
    assert_eq!(o.used_a, 2_500);
    assert_eq!(o.used_b, 5_000);
    assert_eq!(o.minted_shares, 2_250);
}

#[test]
fn deposit_price_ratio_within_one_rounding_unit() {
    // An awkward ratio: the consumed pair stays within one rounding unit
    // of the reserve ratio on both sides.
    let (ra, rb) = (1_000_003u64, 2_999_999u64);
    let o = plan_deposit(ra, rb, 1_500_000, 7_777, 77_777, 7_777, 77_777).unwrap();
    let (ua, ub) = (o.used_a as u128, o.used_b as u128);
    assert!(ua * (rb as u128) < (ub + 1) * (ra as u128));
    assert!(ub * (ra as u128) < (ua + 1) * (rb as u128));
}

#[test]
fn withdraw_pays_floored_proportional_amounts() {
    // supply 900 outstanding plus 100 locked in the divisor.
    let o = plan_withdraw(1000, 1000, 900, 450, 900).unwrap();
    assert_eq!(o.out_a, 450 * 1000 / (900 + MINIMUM_LIQUIDITY));
    assert_eq!(o.out_a, 450);
    assert_eq!(o.out_b, 450);
}

#[test]
fn withdraw_more_than_owned_fails() {
    // Asking for one share more than owned is refused outright; it never
    // silently under-withdraws.
    let r = plan_withdraw(1000, 1000, 900, 901, 900);
    assert_eq!(r, Err(AmmError::InsufficientShares));
    let r = plan_withdraw(1000, 1000, 900, 1, 0);
    assert_eq!(r, Err(AmmError::InsufficientShares));
}

#[test]
fn withdraw_all_shares_leaves_locked_slice() {
    // Even the whole outstanding supply cannot drain the reserves.
    let o = plan_withdraw(1000, 1000, 900, 900, 900).unwrap();
    assert_eq!(o.out_a, 900 * 1000 / 1000);
    assert!(o.out_a < 1000);
    assert!(o.out_b < 1000);
}

#[test]
fn bootstrap_then_full_withdraw_returns_strictly_less() {
    // Round trip: deposit (1000, 1000) into an empty pool, then withdraw
    // every minted share; the locked minimum stays in the pool.
    let d = plan_deposit(0, 0, 0, 1000, 1000, 1000, 1000).unwrap();
    let w = plan_withdraw(d.used_a, d.used_b, d.minted_shares, d.minted_shares, d.minted_shares)
        .unwrap();
    assert!(w.out_a < d.used_a);
    assert!(w.out_b < d.used_b);
    assert_eq!(w.out_a, 900);
    assert_eq!(w.out_b, 900);
}

#[test]
fn error_recoverability() {
    assert!(AmmError::DepositTooSmall.recoverable());
    assert!(AmmError::NotFound.recoverable());
    assert!(!AmmError::InvariantViolated.recoverable());
}
