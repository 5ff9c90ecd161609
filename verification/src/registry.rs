//! Pool records and the registry that creates and looks them up, keyed by
//! (market, asset A, asset B): one pool per ordered pair per market.

use vstd::prelude::*;

use crate::errors::AmmError;
use crate::ids::{lex_lt, AssetId, MarketId};

verus! {

/// One trading pair under one market. The reserve balances live with the
/// external ledger and are read through as plain figures; the record itself
/// never changes after creation.
#[derive(Debug)]
pub struct Pool {
    /// Owning market.
    pub market: MarketId,
    /// The smaller asset identifier of the pair, in the canonical order.
    pub asset_a: AssetId,
    /// The larger asset identifier of the pair.
    pub asset_b: AssetId,
    /// Fee in basis points, fixed when the pool is created.
    pub fee_bp: u16,
}

impl Pool {
    /// Well-formed pool record: assets strictly ordered, fee below 100%.
    pub open spec fn wf(&self) -> bool {
        &&& lex_lt(self.asset_a@, self.asset_b@)
        &&& self.fee_bp < crate::MAX_FEE_BASIS_POINTS
    }

    /// Whether this record is the pool for the given key.
    pub open spec fn key_is(&self, market: Seq<u8>, asset_a: Seq<u8>, asset_b: Seq<u8>) -> bool {
        &&& self.market@ == market
        &&& self.asset_a@ == asset_a
        &&& self.asset_b@ == asset_b
    }

    /// Whether this record and `other` carry the same key.
    pub open spec fn same_key(&self, other: &Pool) -> bool {
        self.key_is(other.market@, other.asset_a@, other.asset_b@)
    }
}

/// The record store of pools. A handle returned by `create` or `lookup` is
/// an index into the creation-ordered sequence of records.
pub struct PoolRegistry {
    pub pools: Vec<Pool>,
}

impl PoolRegistry {
    /// Every record is well formed and no two records share a key.
    pub open spec fn wf(&self) -> bool {
        &&& (forall|i: int| 0 <= i < self.pools@.len() ==> (#[trigger] self.pools@[i]).wf())
        &&& (forall|i: int, j: int|
            #![trigger self.pools@[i], self.pools@[j]]
            0 <= i < j < self.pools@.len() ==> !self.pools@[i].same_key(&self.pools@[j]))
    }

    /// Whether a pool for the key is already registered.
    pub open spec fn contains_key(
        &self,
        market: Seq<u8>,
        asset_a: Seq<u8>,
        asset_b: Seq<u8>,
    ) -> bool {
        exists|i: int|
            0 <= i < self.pools@.len() && (#[trigger] self.pools@[i]).key_is(
                market,
                asset_a,
                asset_b,
            )
    }

    /// Index of the pool registered for the key; meaningful only when
    /// `contains_key` holds, in which case well-formedness makes it unique.
    pub open spec fn key_index(&self, market: Seq<u8>, asset_a: Seq<u8>, asset_b: Seq<u8>) -> int {
        choose|i: int|
            0 <= i < self.pools@.len() && (#[trigger] self.pools@[i]).key_is(
                market,
                asset_a,
                asset_b,
            )
    }

    /// The pool registered for the key; meaningful only when `contains_key`
    /// holds.
    pub open spec fn pool_at_key(&self, market: Seq<u8>, asset_a: Seq<u8>, asset_b: Seq<u8>) -> Pool {
        self.pools@[self.key_index(market, asset_a, asset_b)]
    }

    /// In a well-formed registry at most one record carries a given key.
    pub proof fn lemma_key_unique(
        &self,
        market: Seq<u8>,
        asset_a: Seq<u8>,
        asset_b: Seq<u8>,
        i: int,
        j: int,
    )
        requires
            self.wf(),
            0 <= i < self.pools@.len(),
            0 <= j < self.pools@.len(),
            self.pools@[i].key_is(market, asset_a, asset_b),
            self.pools@[j].key_is(market, asset_a, asset_b),
        ensures
            i == j,
    {
        if i < j {
            assert(self.pools@[i].same_key(&self.pools@[j]));
        } else if j < i {
            assert(self.pools@[j].same_key(&self.pools@[i]));
        }
    }

    /// An empty registry.
    pub fn new() -> (r: PoolRegistry)
        ensures
            r.pools@.len() == 0,
            r.wf(),
    {
        PoolRegistry { pools: Vec::new() }
    }

    /// Number of registered pools.
    pub fn len(&self) -> (r: usize)
        ensures
            r == self.pools@.len(),
    {
        self.pools.len()
    }

    /// The pool record behind a handle.
    pub fn get(&self, handle: usize) -> (r: &Pool)
        requires
            handle < self.pools@.len(),
        ensures
            r == self.pools@[handle as int],
    {
        &self.pools[handle]
    }

    /// Index of the pool for the key, if one is registered.
    fn find(&self, market: &MarketId, asset_a: &AssetId, asset_b: &AssetId) -> (r: Option<usize>)
        ensures
            ({
                match r {
                    Some(i) => i < self.pools@.len() && self.pools@[i as int].key_is(
                        market@,
                        asset_a@,
                        asset_b@,
                    ),
                    None => !self.contains_key(market@, asset_a@, asset_b@),
                }
            }),
    {
        let n = self.pools.len();
        let mut i: usize = 0;
        while i < n
            invariant
                i <= n,
                n == self.pools@.len(),
                forall|j: int|
                    0 <= j < i ==> !(#[trigger] self.pools@[j]).key_is(
                        market@,
                        asset_a@,
                        asset_b@,
                    ),
            decreases n - i,
        {
            let p = &self.pools[i];
            if p.market.eq_id(market) && p.asset_a.eq_id(asset_a) && p.asset_b.eq_id(asset_b) {
                return Some(i);
            }
            i = i + 1;
        }
        None
    }

    /// Registers a new pool for `(market, asset_a, asset_b)` with the given
    /// fee and returns its handle.
    ///
    /// Refuses, in this order of checks: a fee at or above 100%
    /// (`InvalidFee`); an asset pair not presented in strictly increasing
    /// canonical order — the caller must sort the pair, nothing is reordered
    /// silently (`OrderingViolation`); a key that is already registered
    /// (`DuplicatePool`). On refusal the registry is unchanged.
    pub fn create(
        &mut self,
        market: &MarketId,
        asset_a: &AssetId,
        asset_b: &AssetId,
        fee_bp: u16,
    ) -> (r: Result<usize, AmmError>)
        requires
            old(self).wf(),
        ensures
            final(self).wf(),
            fee_bp >= crate::MAX_FEE_BASIS_POINTS ==> r == Err::<usize, AmmError>(AmmError::InvalidFee) && *final(self)
                == *old(self),
            fee_bp < crate::MAX_FEE_BASIS_POINTS && !lex_lt(asset_a@, asset_b@) ==> r == Err::<usize, AmmError>(
                AmmError::OrderingViolation,
            ) && *final(self) == *old(self),
            fee_bp < crate::MAX_FEE_BASIS_POINTS && lex_lt(asset_a@, asset_b@) && old(self).contains_key(
                market@,
                asset_a@,
                asset_b@,
            ) ==> r == Err::<usize, AmmError>(AmmError::DuplicatePool) && *final(self) == *old(self),
            fee_bp < crate::MAX_FEE_BASIS_POINTS && lex_lt(asset_a@, asset_b@) && !old(self).contains_key(
                market@,
                asset_a@,
                asset_b@,
            ) ==> {
                &&& r == Ok::<usize, AmmError>(old(self).pools@.len() as usize)
                &&& final(self).pools@.len() == old(self).pools@.len() + 1
                &&& (forall|i: int|
                    0 <= i < old(self).pools@.len() ==> final(self).pools@[i] == old(
                        self,
                    ).pools@[i])
                &&& final(self).pools@.last().key_is(market@, asset_a@, asset_b@)
                &&& final(self).pools@.last().fee_bp == fee_bp
            },
    {
        if fee_bp >= crate::MAX_FEE_BASIS_POINTS {
            return Err(AmmError::InvalidFee);
        }
        if !asset_a.lt(asset_b) {
            return Err(AmmError::OrderingViolation);
        }
        if let Some(_) = self.find(market, asset_a, asset_b) {
            return Err(AmmError::DuplicatePool);
        }
        let handle = self.pools.len();
        let pool = Pool {
            market: market.duplicate(),
            asset_a: asset_a.duplicate(),
            asset_b: asset_b.duplicate(),
            fee_bp,
        };
        self.pools.push(pool);
        Ok(handle)
    }

    /// Finds the pool for `(market, asset_a, asset_b)` and returns its
    /// handle, or `NotFound` if no such pool is registered.
    pub fn lookup(&self, market: &MarketId, asset_a: &AssetId, asset_b: &AssetId) -> (r: Result<
        usize,
        AmmError,
    >)
        ensures
            (r is Ok) <==> self.contains_key(market@, asset_a@, asset_b@),
            r matches Ok(h) ==> h < self.pools@.len() && self.pools@[h as int].key_is(
                market@,
                asset_a@,
                asset_b@,
            ),
            r matches Err(e) ==> e == AmmError::NotFound,
    {
        match self.find(market, asset_a, asset_b) {
            Some(i) => Ok(i),
            None => Err(AmmError::NotFound),
        }
    }
}

} // verus!
