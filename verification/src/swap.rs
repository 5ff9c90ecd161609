//! Swap engine: fee-adjusted output quoting on the constant-product curve,
//! and the post-trade invariant check.
//!
//! The fee is deducted from the input before the curve is applied and stays
//! out of the trade entirely; only the taxed input enters the pool. The
//! product of the reserves may stay the same or grow across a swap, never
//! shrink — [`lemma_swap_invariant_holds`] proves that the quoted amounts
//! always satisfy [`check_invariant`].

use vstd::prelude::*;

use crate::errors::AmmError;
use crate::math::{lemma_div_below, lemma_div_bounds};

verus! {

/// The part of the input that enters the trade after the fee, in basis
/// points, is taken off: `input - floor(input * fee_bp / 10000)`.
pub open spec fn taxed_input_spec(input: int, fee_bp: int) -> int {
    input - input * fee_bp / 10000
}

/// The quoted output on the constant-product curve for the taxed input:
/// `floor(taxed * reserve_out / (reserve_in + taxed))`.
pub open spec fn swap_output_spec(rin: int, rout: int, fee_bp: int, input: int) -> int {
    let t = taxed_input_spec(input, fee_bp);
    t * rout / (rin + t)
}

/// The fee taken off the input never exceeds the input.
proof fn lemma_taxed_input_bounds(input: int, fee_bp: int)
    requires
        0 <= input,
        0 <= fee_bp < 10000,
    ensures
        0 <= taxed_input_spec(input, fee_bp) <= input,
{
    lemma_div_bounds(input * fee_bp, 10000);
    assert(input * fee_bp < (input + 1) * 10000) by (nonlinear_arith)
        requires
            0 <= input,
            0 <= fee_bp < 10000,
    ;
    lemma_div_below(input * fee_bp, 10000, input + 1);
}

/// The quoted output never exceeds the output-side reserve.
proof fn lemma_output_bounds(rin: int, rout: int, t: int)
    requires
        0 < rin,
        0 <= rout,
        0 <= t,
    ensures
        0 <= t * rout / (rin + t) <= rout,
        0 < rout ==> t * rout / (rin + t) < rout,
{
    lemma_div_bounds(t * rout, rin + t);
    assert(t * rout < (rout + 1) * (rin + t)) by (nonlinear_arith)
        requires
            0 < rin,
            0 <= rout,
            0 <= t,
    ;
    lemma_div_below(t * rout, rin + t, rout + 1);
    if 0 < rout {
        assert(t * rout < rout * (rin + t)) by (nonlinear_arith)
            requires
                0 < rin,
                0 < rout,
                0 <= t,
        ;
        lemma_div_below(t * rout, rin + t, rout);
    }
}

/// For every valid swap, the product of the reserves after the trade is at
/// least the product before it: adding the taxed input to one reserve and
/// paying the flooring-quoted output out of the other never shrinks
/// `reserve_in * reserve_out`.
pub proof fn lemma_swap_invariant_holds(rin: int, rout: int, fee_bp: int, input: int)
    requires
        0 < rin,
        0 <= rout,
        0 <= input,
        0 <= fee_bp < 10000,
    ensures
        ({
            let t = taxed_input_spec(input, fee_bp);
            let out = swap_output_spec(rin, rout, fee_bp, input);
            &&& 0 <= t <= input
            &&& 0 <= out <= rout
            &&& (rin + t) * (rout - out) >= rin * rout
        }),
{
    let t = taxed_input_spec(input, fee_bp);
    let out = swap_output_spec(rin, rout, fee_bp, input);
    lemma_taxed_input_bounds(input, fee_bp);
    lemma_output_bounds(rin, rout, t);
    lemma_div_bounds(t * rout, rin + t);
    assert((rin + t) * (rout - out) >= rin * rout) by (nonlinear_arith)
        requires
            0 < rin,
            0 <= rout,
            0 <= t,
            0 <= out <= rout,
            out * (rin + t) <= t * rout,
    ;
}

/// Quotes the output for `input_amount` of the input-side asset against the
/// given reserves, deducting the fee first, and refuses a quote below the
/// caller's acceptable minimum.
pub fn quote(
    reserve_in: u64,
    reserve_out: u64,
    fee_bp: u16,
    input_amount: u64,
    min_output: u64,
) -> (r: Result<u64, AmmError>)
    requires
        reserve_in > 0,
        fee_bp < crate::MAX_FEE_BASIS_POINTS,
    ensures
        ({
            let out = swap_output_spec(
                reserve_in as int,
                reserve_out as int,
                fee_bp as int,
                input_amount as int,
            );
            &&& ((r is Ok) <==> out >= min_output)
            &&& (r matches Ok(o) ==> o == out && o <= reserve_out)
            &&& (r matches Ok(o) ==> (reserve_out > 0 ==> o < reserve_out))
            &&& (r matches Err(e) ==> e == AmmError::OutputBelowMinimum)
        }),
{
    proof {
        assert(input_amount as int * fee_bp as int <= u128::MAX) by (nonlinear_arith)
            requires
                input_amount <= u64::MAX,
                fee_bp <= u16::MAX,
        ;
        lemma_taxed_input_bounds(input_amount as int, fee_bp as int);
    }
    let fee_cut: u128 = ((input_amount as u128) * (fee_bp as u128)) / 10000;
    let taxed: u64 = input_amount - (fee_cut as u64);
    proof {
        lemma_output_bounds(reserve_in as int, reserve_out as int, taxed as int);
        assert(taxed as int * reserve_out as int <= u128::MAX) by (nonlinear_arith)
            requires
                taxed <= u64::MAX,
                reserve_out <= u64::MAX,
        ;
    }
    let out_wide: u128 = ((taxed as u128) * (reserve_out as u128)) / ((reserve_in as u128)
        + (taxed as u128));
    let out: u64 = out_wide as u64;
    if out >= min_output {
        Ok(out)
    } else {
        Err(AmmError::OutputBelowMinimum)
    }
}

/// What a swap moves. The host must transfer the taxed input into the pool
/// and the output out of it as one atomic unit, or neither.
#[derive(Clone, Copy, Debug, PartialEq, Eq, Structural)]
pub struct SwapOutcome {
    /// Amount of the input asset entering the pool, after the fee.
    pub taxed_input: u64,
    /// Amount of the output asset leaving the pool to the caller.
    pub output: u64,
}

/// Decides a swap against a snapshot of the pool: checks the caller's
/// spendable balance before anything else, quotes the chosen direction, and
/// returns the two amounts the ledger must move. The contract carries the
/// product bound, so re-checking the invariant after exact transfers always
/// passes.
pub fn execute(
    reserve_a: u64,
    reserve_b: u64,
    fee_bp: u16,
    swap_asset_is_a: bool,
    input_amount: u64,
    min_output: u64,
    caller_balance_in: u64,
) -> (r: Result<SwapOutcome, AmmError>)
    requires
        reserve_a > 0,
        reserve_b > 0,
        fee_bp < crate::MAX_FEE_BASIS_POINTS,
    ensures
        ({
            let rin: int = if swap_asset_is_a {
                reserve_a as int
            } else {
                reserve_b as int
            };
            let rout: int = if swap_asset_is_a {
                reserve_b as int
            } else {
                reserve_a as int
            };
            let t = taxed_input_spec(input_amount as int, fee_bp as int);
            let out = swap_output_spec(rin, rout, fee_bp as int, input_amount as int);
            &&& (caller_balance_in < input_amount <==> r == Err::<SwapOutcome, AmmError>(
                AmmError::InsufficientBalance,
            ))
            &&& (caller_balance_in >= input_amount ==> ((r is Ok) <==> out >= min_output))
            &&& (r matches Err(e) ==> e == AmmError::InsufficientBalance || e
                == AmmError::OutputBelowMinimum)
            &&& (r matches Ok(o) ==> {
                &&& o.taxed_input == t
                &&& o.taxed_input <= input_amount <= caller_balance_in
                &&& o.output == out
                &&& o.output < rout
                &&& (rin + t) * (rout - o.output) >= rin * rout
            })
        }),
{
    if caller_balance_in < input_amount {
        return Err(AmmError::InsufficientBalance);
    }
    let reserve_in: u64 = if swap_asset_is_a {
        reserve_a
    } else {
        reserve_b
    };
    let reserve_out: u64 = if swap_asset_is_a {
        reserve_b
    } else {
        reserve_a
    };
    proof {
        assert(input_amount as int * fee_bp as int <= u128::MAX) by (nonlinear_arith)
            requires
                input_amount <= u64::MAX,
                fee_bp <= u16::MAX,
        ;
        lemma_taxed_input_bounds(input_amount as int, fee_bp as int);
        lemma_swap_invariant_holds(
            reserve_in as int,
            reserve_out as int,
            fee_bp as int,
            input_amount as int,
        );
    }
    let fee_cut: u128 = ((input_amount as u128) * (fee_bp as u128)) / 10000;
    let taxed: u64 = input_amount - (fee_cut as u64);
    let output = match quote(reserve_in, reserve_out, fee_bp, input_amount, min_output) {
        Ok(o) => o,
        Err(e) => {
            return Err(e);
        },
    };
    Ok(SwapOutcome { taxed_input: taxed, output })
}

/// Product of the two reserves, the quantity a swap must not shrink,
/// captured before the trade.
pub fn reserve_product(reserve_a: u64, reserve_b: u64) -> (r: u128)
    ensures
        r == reserve_a as int * reserve_b as int,
{
    proof {
        assert(reserve_a as int * reserve_b as int <= u128::MAX) by (nonlinear_arith)
            requires
                reserve_a <= u64::MAX,
                reserve_b <= u64::MAX,
        ;
    }
    (reserve_a as u128) * (reserve_b as u128)
}

/// Compares the reserve product after a swap's transfers against the
/// captured pre-trade product; growth or equality passes, shrinkage is the
/// fatal defect signal. The host calls this on freshly re-read reserves.
pub fn check_invariant(invariant_before: u128, reserve_a: u64, reserve_b: u64) -> (r: Result<
    (),
    AmmError,
>)
    ensures
        (r is Ok) <==> reserve_a as int * reserve_b as int >= invariant_before,
        r matches Err(e) ==> e == AmmError::InvariantViolated,
{
    let now = reserve_product(reserve_a, reserve_b);
    if now >= invariant_before {
        Ok(())
    } else {
        Err(AmmError::InvariantViolated)
    }
}

} // verus!
