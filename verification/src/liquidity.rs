//! Liquidity accounting: how much of a deposit a pool consumes, how many
//! shares it mints, and what a withdrawal of shares pays out.
//!
//! All figures are read-through values owned by the external ledger; each
//! function is a pure computation that returns the amounts the host must
//! transfer, mint or burn as one atomic unit.

use vstd::prelude::*;

use crate::MINIMUM_LIQUIDITY;
use crate::errors::AmmError;
use crate::math::{
    is_sqrt_floor, lemma_div_below, lemma_div_bounds, lemma_mul_div_ordered, mul_div_u64,
    sqrt_floor_u128,
};

verus! {

/// A desired amount never exceeds what the depositor owns: the deposit pulls
/// at most the balance, without treating the excess as an error.
pub open spec fn clamp_spec(desired: int, balance: int) -> int {
    if desired > balance {
        balance
    } else {
        desired
    }
}

/// Amount of asset A a deposit consumes, once the desired amounts have been
/// clamped to the depositor's balances. An empty pool takes the clamped
/// amounts as they are; otherwise the larger feasible pair that keeps the
/// reserve ratio is chosen.
pub open spec fn used_a_spec(ra: int, rb: int, da: int, db: int) -> int {
    if ra == 0 && rb == 0 {
        da
    } else if da * rb / ra <= db {
        da
    } else {
        db * ra / rb
    }
}

/// Amount of asset B a deposit consumes; see [`used_a_spec`].
pub open spec fn used_b_spec(ra: int, rb: int, da: int, db: int) -> int {
    if ra == 0 && rb == 0 {
        db
    } else if da * rb / ra <= db {
        da * rb / ra
    } else {
        db
    }
}

/// What a deposit consumes and mints. The host must perform the two
/// transfers and the mint as one atomic unit, or none of them.
#[derive(Clone, Copy, Debug, PartialEq, Eq, Structural)]
pub struct DepositOutcome {
    /// Amount of asset A moved from the depositor into the pool.
    pub used_a: u64,
    /// Amount of asset B moved from the depositor into the pool.
    pub used_b: u64,
    /// Liquidity shares minted to the depositor.
    pub minted_shares: u64,
}

/// If using all of the clamped desired A would ask for more B than the
/// depositor offers, the pair computed from all of B fits within A.
proof fn lemma_counter_amount(ra: int, rb: int, da: int, db: int)
    requires
        0 < ra,
        0 < rb,
        0 <= da,
        0 <= db,
        da * rb / ra > db,
    ensures
        0 <= db * ra / rb < da,
{
    lemma_div_bounds(da * rb, ra);
    assert((db + 1) * ra <= (da * rb / ra) * ra) by (nonlinear_arith)
        requires
            db + 1 <= da * rb / ra,
            0 < ra,
    ;
    assert(db * ra < da * rb) by (nonlinear_arith)
        requires
            (db + 1) * ra <= da * rb,
            0 < ra,
    ;
    lemma_div_below(db * ra, rb, da);
    lemma_div_bounds(db * ra, rb);
}

/// Computes what a deposit consumes and mints, without touching any balance.
///
/// The desired amounts are first clamped to the depositor's balances. Into an
/// empty pool the clamped amounts are taken as they are (the first depositor
/// sets the price) and the minted shares are the floor square root of their
/// product minus the permanently locked [`MINIMUM_LIQUIDITY`]; the deposit is
/// refused as too small when that root is below the locked amount. Into a
/// non-empty pool the largest balanced pair within the clamped amounts is
/// taken, and shares are minted in proportion to the A axis.
///
/// The bound required of a non-empty pool only keeps the minted share count
/// representable in 64 bits; the external share counter could not hold more.
pub fn plan_deposit(
    reserve_a: u64,
    reserve_b: u64,
    share_supply: u64,
    desired_a: u64,
    desired_b: u64,
    balance_a: u64,
    balance_b: u64,
) -> (r: Result<DepositOutcome, AmmError>)
    requires
        (reserve_a == 0) == (reserve_b == 0),
        reserve_a > 0 ==> clamp_spec(desired_a as int, balance_a as int) * share_supply as int
            / reserve_a as int <= u64::MAX as int,
    ensures
        ({
            let da = clamp_spec(desired_a as int, balance_a as int);
            let db = clamp_spec(desired_b as int, balance_b as int);
            let ua = used_a_spec(reserve_a as int, reserve_b as int, da, db);
            let ub = used_b_spec(reserve_a as int, reserve_b as int, da, db);
            &&& (r matches Ok(o) ==> o.used_a == ua && o.used_b == ub)
            &&& (r matches Ok(o) ==> o.used_a <= balance_a && o.used_b <= balance_b && o.used_a
                <= desired_a && o.used_b <= desired_b)
            &&& (reserve_a == 0 ==> ((r is Ok) <==> ua * ub >= MINIMUM_LIQUIDITY as int
                * MINIMUM_LIQUIDITY as int))
            &&& (r matches Err(e) ==> e == AmmError::DepositTooSmall)
            &&& (reserve_a == 0 ==> (r matches Ok(o) ==> is_sqrt_floor(
                ua * ub,
                o.minted_shares + MINIMUM_LIQUIDITY,
            )))
            &&& (reserve_a > 0 ==> r is Ok)
            &&& (reserve_a > 0 ==> (r matches Ok(o) ==> o.minted_shares == ua * share_supply as int
                / reserve_a as int))
        }),
{
    let da: u64 = if desired_a > balance_a {
        balance_a
    } else {
        desired_a
    };
    let db: u64 = if desired_b > balance_b {
        balance_b
    } else {
        desired_b
    };
    if reserve_a == 0 {
        proof {
            assert(da as int * db as int <= u128::MAX) by (nonlinear_arith)
                requires
                    da <= u64::MAX,
                    db <= u64::MAX,
            ;
        }
        let product: u128 = (da as u128) * (db as u128);
        let root: u64 = sqrt_floor_u128(product);
        if root < MINIMUM_LIQUIDITY {
            proof {
                assert(product < MINIMUM_LIQUIDITY as int * MINIMUM_LIQUIDITY as int)
                    by (nonlinear_arith)
                    requires
                        is_sqrt_floor(product as int, root as int),
                        root < MINIMUM_LIQUIDITY,
                ;
            }
            Err(AmmError::DepositTooSmall)
        } else {
            proof {
                assert(product >= MINIMUM_LIQUIDITY as int * MINIMUM_LIQUIDITY as int)
                    by (nonlinear_arith)
                    requires
                        is_sqrt_floor(product as int, root as int),
                        root >= MINIMUM_LIQUIDITY,
                ;
            }
            Ok(DepositOutcome { used_a: da, used_b: db, minted_shares: root - MINIMUM_LIQUIDITY })
        }
    } else {
        let optimal_b: u128 = mul_div_u64(da, reserve_b, reserve_a);
        let used_a: u64;
        let used_b: u64;
        if optimal_b <= db as u128 {
            used_a = da;
            used_b = optimal_b as u64;
        } else {
            proof {
                lemma_counter_amount(reserve_a as int, reserve_b as int, da as int, db as int);
            }
            let counter_a: u128 = mul_div_u64(db, reserve_a, reserve_b);
            used_a = counter_a as u64;
            used_b = db;
        }
        let minted: u128 = mul_div_u64(used_a, share_supply, reserve_a);
        proof {
            lemma_mul_div_ordered(
                used_a as int,
                clamp_spec(desired_a as int, balance_a as int),
                share_supply as int,
                reserve_a as int,
            );
        }
        Ok(DepositOutcome { used_a, used_b, minted_shares: minted as u64 })
    }
}

/// What a withdrawal of shares pays out. The host must perform the two
/// transfers and the burn as one atomic unit, or none of them.
#[derive(Clone, Copy, Debug, PartialEq, Eq, Structural)]
pub struct WithdrawOutcome {
    /// Amount of asset A moved from the pool to the withdrawer.
    pub out_a: u64,
    /// Amount of asset B moved from the pool to the withdrawer.
    pub out_b: u64,
}

/// Computes what burning `shares_in` liquidity shares pays out.
///
/// Fails when the caller asks for more shares than it owns; it never
/// silently under-withdraws. The payout on each axis is the floored
/// proportional amount, with the permanently locked [`MINIMUM_LIQUIDITY`]
/// added to the divisor so the locked shares can never be redeemed: the
/// payout is always strictly below the reserve it is drawn from.
///
/// Note the deliberate asymmetry against minting: a non-bootstrap deposit
/// mints over the plain supply, while the payout divides by the
/// locked-augmented supply. Both roundings favour the pool; the asymmetry
/// is kept as designed rather than reconciled here.
///
/// One holder's share balance never exceeds the outstanding supply; that
/// ledger fact is the only assumption taken here.
pub fn plan_withdraw(
    reserve_a: u64,
    reserve_b: u64,
    share_supply: u64,
    shares_in: u64,
    caller_share_balance: u64,
) -> (r: Result<WithdrawOutcome, AmmError>)
    requires
        caller_share_balance <= share_supply,
    ensures
        (r is Err) <==> shares_in > caller_share_balance,
        r matches Err(e) ==> e == AmmError::InsufficientShares,
        r matches Ok(o) ==> {
            &&& o.out_a == shares_in as int * reserve_a as int / (share_supply as int
                + MINIMUM_LIQUIDITY as int)
            &&& o.out_b == shares_in as int * reserve_b as int / (share_supply as int
                + MINIMUM_LIQUIDITY as int)
            &&& o.out_a <= reserve_a
            &&& o.out_b <= reserve_b
            &&& (reserve_a > 0 ==> o.out_a < reserve_a)
            &&& (reserve_b > 0 ==> o.out_b < reserve_b)
        },
{
    if shares_in > caller_share_balance {
        return Err(AmmError::InsufficientShares);
    }
    let divisor: u128 = share_supply as u128 + MINIMUM_LIQUIDITY as u128;
    proof {
        assert(shares_in as int * reserve_a as int <= u128::MAX) by (nonlinear_arith)
            requires
                shares_in <= u64::MAX,
                reserve_a <= u64::MAX,
        ;
        assert(shares_in as int * reserve_b as int <= u128::MAX) by (nonlinear_arith)
            requires
                shares_in <= u64::MAX,
                reserve_b <= u64::MAX,
        ;
    }
    let out_a_wide: u128 = ((shares_in as u128) * (reserve_a as u128)) / divisor;
    let out_b_wide: u128 = ((shares_in as u128) * (reserve_b as u128)) / divisor;
    proof {
        lemma_payout_below_reserve(
            shares_in as int,
            reserve_a as int,
            share_supply as int,
            MINIMUM_LIQUIDITY as int,
        );
        lemma_payout_below_reserve(
            shares_in as int,
            reserve_b as int,
            share_supply as int,
            MINIMUM_LIQUIDITY as int,
        );
    }
    Ok(WithdrawOutcome { out_a: out_a_wide as u64, out_b: out_b_wide as u64 })
}

/// A deposit into a non-empty pool never moves the price by more than one
/// unit of integer rounding: the amounts consumed sit within one rounding
/// unit of the reserve ratio on both sides, and so does the ratio of the
/// post-deposit reserves against the pre-deposit ratio.
pub proof fn lemma_deposit_preserves_price(ra: int, rb: int, da: int, db: int)
    requires
        0 < ra,
        0 < rb,
        0 <= da,
        0 <= db,
    ensures
        ({
            let ua = used_a_spec(ra, rb, da, db);
            let ub = used_b_spec(ra, rb, da, db);
            &&& 0 <= ua
            &&& 0 <= ub
            &&& ua * rb < (ub + 1) * ra
            &&& ub * ra < (ua + 1) * rb
            &&& (ra + ua) * rb < (rb + ub + 1) * ra
            &&& (rb + ub) * ra < (ra + ua + 1) * rb
        }),
{
    let ua = used_a_spec(ra, rb, da, db);
    let ub = used_b_spec(ra, rb, da, db);
    if da * rb / ra <= db {
        lemma_div_bounds(da * rb, ra);
        assert(ub * ra <= ua * rb && ua * rb < (ub + 1) * ra) by (nonlinear_arith)
            requires
                ua == da,
                ub == da * rb / ra,
                (da * rb / ra) * ra <= da * rb,
                da * rb < (da * rb / ra + 1) * ra,
        ;
        assert(ub * ra < (ua + 1) * rb) by (nonlinear_arith)
            requires
                ub * ra <= ua * rb,
                0 < rb,
                0 <= ua,
        ;
    } else {
        lemma_div_bounds(db * ra, rb);
        assert(ua * rb <= ub * ra && ub * ra < (ua + 1) * rb) by (nonlinear_arith)
            requires
                ub == db,
                ua == db * ra / rb,
                (db * ra / rb) * rb <= db * ra,
                db * ra < (db * ra / rb + 1) * rb,
        ;
        assert(ua * rb < (ub + 1) * ra) by (nonlinear_arith)
            requires
                ua * rb <= ub * ra,
                0 < ra,
                0 <= ub,
        ;
    }
    assert((ra + ua) * rb < (rb + ub + 1) * ra && (rb + ub) * ra < (ra + ua + 1) * rb)
        by (nonlinear_arith)
        requires
            ua * rb < (ub + 1) * ra,
            ub * ra < (ua + 1) * rb,
    ;
}

/// Depositing into an empty pool and then immediately withdrawing every
/// minted share returns strictly less on each axis than the deposit
/// consumed: the permanently locked minimum and the flooring keep the
/// difference in the pool forever.
///
/// `used_a` and `used_b` are what the bootstrap deposit consumed (never
/// more than the depositor offered), `minted` the shares it minted, which
/// is then both the outstanding supply and the withdrawer's whole balance;
/// the payouts are exactly those of a full withdrawal right afterwards.
pub proof fn lemma_bootstrap_round_trip(used_a: int, used_b: int, minted: int)
    requires
        0 <= used_a,
        0 <= used_b,
        0 <= minted,
        is_sqrt_floor(used_a * used_b, minted + MINIMUM_LIQUIDITY as int),
    ensures
        0 < used_a,
        0 < used_b,
        minted * used_a / (minted + MINIMUM_LIQUIDITY as int) < used_a,
        minted * used_b / (minted + MINIMUM_LIQUIDITY as int) < used_b,
{
    let root = minted + MINIMUM_LIQUIDITY as int;
    assert(used_a * used_b >= root * root && root >= 100) by {
        assert(root * root <= used_a * used_b) by (nonlinear_arith)
            requires
                is_sqrt_floor(used_a * used_b, root),
        ;
    }
    assert(0 < used_a && 0 < used_b) by (nonlinear_arith)
        requires
            used_a * used_b >= root * root,
            root >= 100,
            0 <= used_a,
            0 <= used_b,
    ;
    lemma_payout_below_reserve(minted, used_a, minted, MINIMUM_LIQUIDITY as int);
    lemma_payout_below_reserve(minted, used_b, minted, MINIMUM_LIQUIDITY as int);
}

/// A proportional payout over the locked-augmented supply never reaches the
/// reserve: the permanently locked shares keep their slice of the pool.
proof fn lemma_payout_below_reserve(s: int, reserve: int, supply: int, locked: int)
    requires
        0 <= s <= supply,
        0 <= reserve,
        0 < locked,
    ensures
        0 <= s * reserve / (supply + locked) <= reserve,
        reserve > 0 ==> s * reserve / (supply + locked) < reserve,
{
    lemma_div_bounds(s * reserve, supply + locked);
    if reserve > 0 {
        assert(s * reserve < reserve * (supply + locked)) by (nonlinear_arith)
            requires
                0 <= s <= supply,
                0 < reserve,
                0 < locked,
        ;
        lemma_div_below(s * reserve, supply + locked, reserve);
    } else {
        assert(s * reserve == 0) by (nonlinear_arith)
            requires
                reserve == 0,
        ;
    }
}

} // verus!
