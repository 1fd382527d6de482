use vstd::prelude::*;
use crate::{Decimal, DecimalOrder};

verus! {

/// A price level of one side of a book: something filed under a price.
pub trait Priced {
    /// The price the level is filed under.
    spec fn level_price(&self) -> Decimal;

    /// The price the level is filed under.
    fn price_of(&self) -> (r: &Decimal)
        ensures
            *r == self.level_price(),
    ;
}

/// The keys of the prices of the levels `s`, in their order.
pub open spec fn price_keys<E: Priced>(s: Seq<E>) -> Seq<int> {
    s.map_values(|e: E| e.level_price().key())
}

/// The keys `s` are in strictly increasing order.
pub open spec fn sorted_keys(s: Seq<int>) -> bool {
    forall|i: int, j: int| 0 <= i < j < s.len() ==> s[i] < s[j]
}

/// How many of the keys `s` are below `k`: where they are sorted, the
/// position of `k` or the position where it would go.
pub open spec fn key_position(s: Seq<int>, k: int) -> int
    decreases s.len(),
{
    if s.len() == 0 {
        0
    } else {
        key_position(s.drop_last(), k) + if s.last() < k {
            1int
        } else {
            0int
        }
    }
}

/// Whether the sorted keys `s` hold `k`.
pub open spec fn has_key(s: Seq<int>, k: int) -> bool {
    let p = key_position(s, k);
    p < s.len() && s[p] == k
}

/// `key_position` is a position of the keys `s`, sorted or not.
pub proof fn lemma_key_position_bounds(s: Seq<int>, k: int)
    ensures
        0 <= key_position(s, k) <= s.len(),
    decreases s.len(),
{
    if s.len() > 0 {
        lemma_key_position_bounds(s.drop_last(), k);
    }
}

/// A position that splits the keys into those below `k` and the rest is
/// `key_position`.
pub proof fn lemma_key_position(s: Seq<int>, k: int, i: int)
    requires
        0 <= i <= s.len(),
        forall|j: int| 0 <= j < i ==> s[j] < k,
        forall|j: int| i <= j < s.len() ==> s[j] >= k,
    ensures
        key_position(s, k) == i,
    decreases s.len(),
{
    if s.len() > 0 {
        let t = s.drop_last();
        if i == s.len() {
            lemma_key_position(t, k, i - 1);
        } else {
            lemma_key_position(t, k, i);
        }
    }
}

/// In sorted keys, `key_position` splits the keys below `k` from the rest.
pub proof fn lemma_key_position_splits(s: Seq<int>, k: int)
    requires
        sorted_keys(s),
    ensures
        0 <= key_position(s, k) <= s.len(),
        forall|j: int| 0 <= j < key_position(s, k) ==> s[j] < k,
        forall|j: int| key_position(s, k) <= j < s.len() ==> s[j] >= k,
    decreases s.len(),
{
    if s.len() > 0 {
        let t = s.drop_last();
        assert(sorted_keys(t));
        lemma_key_position_splits(t, k);
        let p = key_position(t, k);
        assert(forall|j: int| 0 <= j < t.len() ==> t[j] == s[j]);
        if s.last() < k {
            // every key of `t` is below the last one, so below `k`
            if p < t.len() {
                assert(t[p] >= k);
                assert(s[p] < s[s.len() - 1]);
            }
            assert(key_position(s, k) == s.len());
        } else {
            assert(key_position(s, k) == p);
        }
    }
}

/// Finds the level priced at `price` by bisection: `Ok` with its position,
/// or `Err` with the position where it would go.
pub fn find_price<E: Priced>(v: &Vec<E>, price: &Decimal) -> (r: Result<usize, usize>)
    requires
        sorted_keys(price_keys(v@)),
    ensures
        r matches Ok(i) ==> i == key_position(price_keys(v@), price.key()) && has_key(
            price_keys(v@),
            price.key(),
        ),
        r matches Err(i) ==> i == key_position(price_keys(v@), price.key()) && !has_key(
            price_keys(v@),
            price.key(),
        ),
        r matches Err(i) ==> i <= v@.len() && (forall|j: int|
            0 <= j < i ==> price_keys(v@)[j] < price.key()) && (forall|j: int|
            i <= j < v@.len() ==> price_keys(v@)[j] > price.key()),
{
    let ghost keys = price_keys(v@);
    let ghost k = price.key();
    let mut lo: usize = 0;
    let mut hi: usize = v.len();
    while lo < hi
        invariant
            keys == price_keys(v@),
            k == price.key(),
            sorted_keys(keys),
            lo <= hi <= v@.len(),
            forall|j: int| 0 <= j < lo ==> keys[j] < k,
            forall|j: int| hi <= j < keys.len() ==> keys[j] > k,
        decreases hi - lo,
    {
        let mid = lo + (hi - lo) / 2;
        assert(keys[mid as int] == v@[mid as int].level_price().key());
        match v[mid].price_of().compare(price) {
            DecimalOrder::Equal => {
                proof {
                    lemma_key_position(keys, k, mid as int);
                }
                return Ok(mid);
            },
            DecimalOrder::Less => {
                lo = mid + 1;
            },
            DecimalOrder::Greater => {
                hi = mid;
            },
        }
    }
    proof {
        lemma_key_position(keys, k, lo as int);
    }
    Err(lo)
}

} // verus!
