//! Identifiers of markets, assets and accounts, and the byte-lexicographic
//! total order that canonicalizes the two assets of a pool: a pool for
//! (A, B) and one for (B, A) are the same pool once the pair is ordered.

use vstd::prelude::*;

verus! {

/// Strict byte-lexicographic order on identifier contents.
pub open spec fn lex_lt(a: Seq<u8>, b: Seq<u8>) -> bool
    decreases a.len(),
{
    if b.len() == 0 {
        false
    } else if a.len() == 0 {
        true
    } else if a[0] != b[0] {
        a[0] < b[0]
    } else {
        lex_lt(a.skip(1), b.skip(1))
    }
}

/// `lex_lt` is trichotomous: of two identifier contents, either the first is
/// smaller, or they are equal, or the second is smaller, and no two of these
/// hold at once. This is what makes the canonical order of an asset pair
/// deterministic.
pub proof fn lemma_lex_lt_trichotomy(a: Seq<u8>, b: Seq<u8>)
    ensures
        lex_lt(a, b) || a == b || lex_lt(b, a),
        lex_lt(a, b) ==> a != b && !lex_lt(b, a),
        a == b ==> !lex_lt(a, b) && !lex_lt(b, a),
    decreases a.len(),
{
    if b.len() == 0 || a.len() == 0 {
        if a.len() == 0 && b.len() == 0 {
            assert(a =~= b);
        }
    } else if a[0] != b[0] {
    } else {
        lemma_lex_lt_trichotomy(a.skip(1), b.skip(1));
        if a.skip(1) == b.skip(1) {
            assert(a.len() == b.len());
            assert forall|i: int| 0 <= i < a.len() implies a[i] == b[i] by {
                if i >= 1 {
                    assert(a.skip(1)[i - 1] == a[i]);
                    assert(b.skip(1)[i - 1] == b[i]);
                }
            }
            assert(a =~= b);
        }
        if a == b {
            assert(a.skip(1) =~= b.skip(1));
        }
    }
}

/// Compares two byte strings lexicographically.
fn bytes_lt(a: &Vec<u8>, b: &Vec<u8>) -> (r: bool)
    ensures
        r == lex_lt(a@, b@),
{
    let mut i: usize = 0;
    let a_len = a.len();
    let b_len = b.len();
    proof {
        assert(a@.skip(0) =~= a@);
        assert(b@.skip(0) =~= b@);
    }
    loop
        invariant
            i <= a_len,
            i <= b_len,
            a_len == a@.len(),
            b_len == b@.len(),
            forall|j: int| 0 <= j < i ==> a@[j] == b@[j],
            lex_lt(a@, b@) == lex_lt(a@.skip(i as int), b@.skip(i as int)),
        decreases a_len - i,
    {
        if i == b_len {
            proof {
                assert(b@.skip(i as int).len() == 0);
            }
            return false;
        }
        if i == a_len {
            proof {
                assert(a@.skip(i as int).len() == 0);
                assert(b@.skip(i as int).len() > 0);
            }
            return true;
        }
        let ca = a[i];
        let cb = b[i];
        if ca != cb {
            proof {
                assert(a@.skip(i as int)[0] == a@[i as int]);
                assert(b@.skip(i as int)[0] == b@[i as int]);
            }
            return ca < cb;
        }
        proof {
            assert(a@.skip(i as int)[0] == b@.skip(i as int)[0]);
            assert(a@.skip(i as int).skip(1) =~= a@.skip(i + 1));
            assert(b@.skip(i as int).skip(1) =~= b@.skip(i + 1));
        }
        i = i + 1;
    }
}

/// Copies a byte string into a fresh vector with the same contents.
fn copy_bytes(a: &Vec<u8>) -> (r: Vec<u8>)
    ensures
        r@ == a@,
{
    let n = a.len();
    let mut r: Vec<u8> = Vec::new();
    let mut i: usize = 0;
    while i < n
        invariant
            i <= n,
            n == a@.len(),
            r@ =~= a@.take(i as int),
        decreases n - i,
    {
        r.push(a[i]);
        proof {
            assert(r@ =~= a@.take(i + 1));
        }
        i = i + 1;
    }
    proof {
        assert(a@.take(n as int) =~= a@);
    }
    r
}

/// Compares two byte strings for equality.
fn bytes_eq(a: &Vec<u8>, b: &Vec<u8>) -> (r: bool)
    ensures
        r == (a@ == b@),
{
    if a.len() != b.len() {
        return false;
    }
    let n = a.len();
    let mut i: usize = 0;
    while i < n
        invariant
            i <= n,
            n == a@.len(),
            n == b@.len(),
            forall|j: int| 0 <= j < i ==> a@[j] == b@[j],
        decreases n - i,
    {
        if a[i] != b[i] {
            return false;
        }
        i = i + 1;
    }
    proof {
        assert(a@ =~= b@);
    }
    true
}

/// Identifier of one fungible asset, ordered byte-lexicographically.
#[derive(Clone, Debug)]
pub struct AssetId {
    pub bytes: Vec<u8>,
}

impl View for AssetId {
    type V = Seq<u8>;

    open spec fn view(&self) -> Seq<u8> {
        self.bytes@
    }
}

impl AssetId {
    pub fn new(bytes: Vec<u8>) -> (r: AssetId)
        ensures
            r@ == bytes@,
    {
        AssetId { bytes }
    }

    /// Whether `self` comes strictly before `other` in the canonical order.
    pub fn lt(&self, other: &AssetId) -> (r: bool)
        ensures
            r == lex_lt(self@, other@),
    {
        bytes_lt(&self.bytes, &other.bytes)
    }

    /// Whether the two identifiers name the same asset.
    pub fn eq_id(&self, other: &AssetId) -> (r: bool)
        ensures
            r == (self@ == other@),
    {
        bytes_eq(&self.bytes, &other.bytes)
    }

    /// An owned copy with the same contents.
    pub fn duplicate(&self) -> (r: AssetId)
        ensures
            r@ == self@,
    {
        AssetId { bytes: copy_bytes(&self.bytes) }
    }
}

/// Puts a pair of asset identifiers into canonical (increasing) order.
/// Pool creation itself refuses an unordered pair rather than reordering it;
/// this is the helper a caller uses to sort the pair first.
pub fn canonical_pair(a: AssetId, b: AssetId) -> (r: (AssetId, AssetId))
    ensures
        !lex_lt(r.1@, r.0@),
        lex_lt(b@, a@) ==> r.0@ == b@ && r.1@ == a@,
        !lex_lt(b@, a@) ==> r.0@ == a@ && r.1@ == b@,
{
    proof {
        lemma_lex_lt_trichotomy(a@, b@);
    }
    if b.lt(&a) {
        (b, a)
    } else {
        (a, b)
    }
}

/// Identifier of a market (one deployment of the fee configuration).
#[derive(Clone, Debug)]
pub struct MarketId {
    pub bytes: Vec<u8>,
}

impl View for MarketId {
    type V = Seq<u8>;

    open spec fn view(&self) -> Seq<u8> {
        self.bytes@
    }
}

impl MarketId {
    pub fn new(bytes: Vec<u8>) -> (r: MarketId)
        ensures
            r@ == bytes@,
    {
        MarketId { bytes }
    }

    /// Whether the two identifiers name the same market.
    pub fn eq_id(&self, other: &MarketId) -> (r: bool)
        ensures
            r == (self@ == other@),
    {
        bytes_eq(&self.bytes, &other.bytes)
    }

    /// An owned copy with the same contents.
    pub fn duplicate(&self) -> (r: MarketId)
        ensures
            r@ == self@,
    {
        MarketId { bytes: copy_bytes(&self.bytes) }
    }
}

/// Identifier of an account held by the external ledger, such as the
/// administrator of a market. The core only stores and compares these.
#[derive(Clone, Debug)]
pub struct AccountId {
    pub bytes: Vec<u8>,
}

impl View for AccountId {
    type V = Seq<u8>;

    open spec fn view(&self) -> Seq<u8> {
        self.bytes@
    }
}

impl AccountId {
    pub fn new(bytes: Vec<u8>) -> (r: AccountId)
        ensures
            r@ == bytes@,
    {
        AccountId { bytes }
    }

    /// Whether the two identifiers name the same account.
    pub fn eq_id(&self, other: &AccountId) -> (r: bool)
        ensures
            r == (self@ == other@),
    {
        bytes_eq(&self.bytes, &other.bytes)
    }
}

} // verus!
