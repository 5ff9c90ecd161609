//! The market façade: one fee configuration under one administrator, and
//! the operations it exposes over the registry, the liquidity accounting
//! and the swap engine.
//!
//! Each operation is a pure decision over a snapshot of the pool's figures.
//! The host performs the returned transfers under exclusive access to the
//! pool and inside an all-or-nothing transaction; for a swap it re-reads the
//! reserves afterwards and calls [`crate::swap::check_invariant`].

use vstd::prelude::*;

use crate::errors::AmmError;
use crate::ids::{lex_lt, AccountId, AssetId, MarketId};
use crate::liquidity::{clamp_spec, plan_deposit, plan_withdraw, DepositOutcome, WithdrawOutcome};
use crate::math::is_sqrt_floor;
use crate::registry::PoolRegistry;
use crate::swap::{execute, swap_output_spec, taxed_input_spec, SwapOutcome};
use crate::MINIMUM_LIQUIDITY;

verus! {

/// One deployment of the fee configuration: an administrator identity and
/// the fee, in basis points, that pools created under this market charge.
/// The fee is fixed here at creation and copied into each pool.
#[derive(Debug)]
pub struct Market {
    /// Identifier under which this market's pools are keyed.
    pub id: MarketId,
    /// Administrator identity; authority checks are the host's concern.
    pub admin: AccountId,
    /// Fee in basis points, strictly below [`crate::MAX_FEE_BASIS_POINTS`].
    pub fee_bp: u16,
}

impl Market {
    /// A market always carries a fee strictly below 100%.
    pub open spec fn wf(&self) -> bool {
        self.fee_bp < crate::MAX_FEE_BASIS_POINTS
    }

    /// Creates the market record, refusing a fee at or above 100%.
    pub fn new(id: MarketId, admin: AccountId, fee_bp: u16) -> (r: Result<Market, AmmError>)
        ensures
            (r is Ok) <==> fee_bp < crate::MAX_FEE_BASIS_POINTS,
            r matches Err(e) ==> e == AmmError::InvalidFee,
            r matches Ok(m) ==> m.id@ == id@ && m.admin@ == admin@ && m.fee_bp == fee_bp
                && m.wf(),
    {
        if fee_bp >= crate::MAX_FEE_BASIS_POINTS {
            return Err(AmmError::InvalidFee);
        }
        Ok(Market { id, admin, fee_bp })
    }

    /// Registers a pool for the asset pair under this market, carrying this
    /// market's fee. The pair must already be in canonical order, and no
    /// pool may exist for the key yet.
    pub fn create_pool(
        &self,
        registry: &mut PoolRegistry,
        asset_a: &AssetId,
        asset_b: &AssetId,
    ) -> (r: Result<usize, AmmError>)
        requires
            old(registry).wf(),
            self.wf(),
        ensures
            final(registry).wf(),
            !lex_lt(asset_a@, asset_b@) ==> r == Err::<usize, AmmError>(
                AmmError::OrderingViolation,
            ) && *final(registry) == *old(registry),
            lex_lt(asset_a@, asset_b@) && old(registry).contains_key(
                self.id@,
                asset_a@,
                asset_b@,
            ) ==> r == Err::<usize, AmmError>(AmmError::DuplicatePool) && *final(registry) == *old(
                registry,
            ),
            lex_lt(asset_a@, asset_b@) && !old(registry).contains_key(
                self.id@,
                asset_a@,
                asset_b@,
            ) ==> {
                &&& r == Ok::<usize, AmmError>(old(registry).pools@.len() as usize)
                &&& final(registry).pools@.len() == old(registry).pools@.len() + 1
                &&& final(registry).pools@.last().key_is(self.id@, asset_a@, asset_b@)
                &&& final(registry).pools@.last().fee_bp == self.fee_bp
            },
    {
        registry.create(&self.id, asset_a, asset_b, self.fee_bp)
    }

    /// Looks the pool for the asset pair up and computes what a deposit into
    /// it consumes and mints; see [`plan_deposit`] for the accounting.
    pub fn deposit(
        &self,
        registry: &PoolRegistry,
        asset_a: &AssetId,
        asset_b: &AssetId,
        reserve_a: u64,
        reserve_b: u64,
        share_supply: u64,
        desired_a: u64,
        desired_b: u64,
        balance_a: u64,
        balance_b: u64,
    ) -> (r: Result<DepositOutcome, AmmError>)
        requires
            (reserve_a == 0) == (reserve_b == 0),
            reserve_a > 0 ==> clamp_spec(desired_a as int, balance_a as int) * share_supply as int
                / reserve_a as int <= u64::MAX as int,
        ensures
            !registry.contains_key(self.id@, asset_a@, asset_b@) ==> r == Err::<
                DepositOutcome,
                AmmError,
            >(AmmError::NotFound),
            registry.contains_key(self.id@, asset_a@, asset_b@) ==> ({
                let da = clamp_spec(desired_a as int, balance_a as int);
                let db = clamp_spec(desired_b as int, balance_b as int);
                let ua = crate::liquidity::used_a_spec(reserve_a as int, reserve_b as int, da, db);
                let ub = crate::liquidity::used_b_spec(reserve_a as int, reserve_b as int, da, db);
                &&& (r matches Ok(o) ==> o.used_a == ua && o.used_b == ub)
                &&& (r matches Ok(o) ==> o.used_a <= balance_a && o.used_b <= balance_b)
                &&& (reserve_a == 0 ==> ((r is Ok) <==> ua * ub >= MINIMUM_LIQUIDITY as int
                    * MINIMUM_LIQUIDITY as int))
                &&& (r matches Err(e) ==> e == AmmError::DepositTooSmall)
                &&& (reserve_a == 0 ==> (r matches Ok(o) ==> is_sqrt_floor(
                    ua * ub,
                    o.minted_shares + MINIMUM_LIQUIDITY,
                )))
                &&& (reserve_a > 0 ==> r is Ok)
                &&& (reserve_a > 0 ==> (r matches Ok(o) ==> o.minted_shares == ua
                    * share_supply as int / reserve_a as int))
            }),
    {
        if let Err(e) = registry.lookup(&self.id, asset_a, asset_b) {
            return Err(e);
        }
        plan_deposit(
            reserve_a,
            reserve_b,
            share_supply,
            desired_a,
            desired_b,
            balance_a,
            balance_b,
        )
    }

    /// Looks the pool for the asset pair up and computes what burning
    /// `shares_in` pays out; see [`plan_withdraw`] for the accounting.
    pub fn withdraw(
        &self,
        registry: &PoolRegistry,
        asset_a: &AssetId,
        asset_b: &AssetId,
        reserve_a: u64,
        reserve_b: u64,
        share_supply: u64,
        shares_in: u64,
        caller_share_balance: u64,
    ) -> (r: Result<WithdrawOutcome, AmmError>)
        requires
            caller_share_balance <= share_supply,
        ensures
            !registry.contains_key(self.id@, asset_a@, asset_b@) ==> r == Err::<
                WithdrawOutcome,
                AmmError,
            >(AmmError::NotFound),
            registry.contains_key(self.id@, asset_a@, asset_b@) ==> {
                &&& ((r is Err) <==> shares_in > caller_share_balance)
                &&& (r matches Err(e) ==> e == AmmError::InsufficientShares)
                &&& (r matches Ok(o) ==> {
                    &&& o.out_a == shares_in as int * reserve_a as int / (share_supply as int
                        + MINIMUM_LIQUIDITY as int)
                    &&& o.out_b == shares_in as int * reserve_b as int / (share_supply as int
                        + MINIMUM_LIQUIDITY as int)
                    &&& o.out_a <= reserve_a
                    &&& o.out_b <= reserve_b
                })
            },
    {
        if let Err(e) = registry.lookup(&self.id, asset_a, asset_b) {
            return Err(e);
        }
        plan_withdraw(reserve_a, reserve_b, share_supply, shares_in, caller_share_balance)
    }

    /// Looks the pool for the asset pair up and decides a swap against the
    /// given reserve snapshot, using the fee fixed in the pool record; see
    /// [`execute`] for the quoting and the balance check.
    pub fn swap(
        &self,
        registry: &PoolRegistry,
        asset_a: &AssetId,
        asset_b: &AssetId,
        reserve_a: u64,
        reserve_b: u64,
        swap_asset_is_a: bool,
        input_amount: u64,
        min_output: u64,
        caller_balance_in: u64,
    ) -> (r: Result<SwapOutcome, AmmError>)
        requires
            registry.wf(),
            reserve_a > 0,
            reserve_b > 0,
        ensures
            !registry.contains_key(self.id@, asset_a@, asset_b@) ==> r == Err::<
                SwapOutcome,
                AmmError,
            >(AmmError::NotFound),
            registry.contains_key(self.id@, asset_a@, asset_b@) ==> ({
                let fee = registry.pool_at_key(self.id@, asset_a@, asset_b@).fee_bp;
                let rin: int = if swap_asset_is_a {
                    reserve_a as int
                } else {
                    reserve_b as int
                };
                let rout: int = if swap_asset_is_a {
                    reserve_b as int
                } else {
                    reserve_a as int
                };
                let t = taxed_input_spec(input_amount as int, fee as int);
                let out = swap_output_spec(rin, rout, fee as int, input_amount as int);
                &&& (caller_balance_in < input_amount <==> r == Err::<SwapOutcome, AmmError>(
                    AmmError::InsufficientBalance,
                ))
                &&& (caller_balance_in >= input_amount ==> ((r is Ok) <==> out >= min_output))
                &&& (r matches Ok(o) ==> {
                    &&& o.taxed_input == t
                    &&& o.taxed_input <= input_amount <= caller_balance_in
                    &&& o.output == out
                    &&& o.output < rout
                    &&& (rin + t) * (rout - o.output) >= rin * rout
                })
            }),
    {
        let handle = match registry.lookup(&self.id, asset_a, asset_b) {
            Ok(h) => h,
            Err(e) => {
                return Err(e);
            },
        };
        let pool = registry.get(handle);
        proof {
            registry.lemma_key_unique(
                self.id@,
                asset_a@,
                asset_b@,
                handle as int,
                registry.key_index(self.id@, asset_a@, asset_b@),
            );
        }
        execute(
            reserve_a,
            reserve_b,
            pool.fee_bp,
            swap_asset_is_a,
            input_amount,
            min_output,
            caller_balance_in,
        )
    }
}

} // verus!
