//! Quality selection: candidates in stable ascending order of bitrate, indexed by tier.

use vstd::prelude::*;

verus! {

/// The first position at or after `j` in `o` whose key exceeds `key` (or the end).
pub open spec fn upper_from(keys: Seq<i128>, o: Seq<int>, key: i128, j: int) -> int
    decreases o.len() - j,
{
    if j < 0 || j >= o.len() {
        o.len() as int
    } else if keys[o[j]] > key {
        j
    } else {
        upper_from(keys, o, key, j + 1)
    }
}

/// The indices `0..n` in stable ascending order of their keys: each index is placed after
/// every earlier index whose key is not greater.
pub open spec fn order_of(keys: Seq<i128>, n: int) -> Seq<int>
    decreases n,
{
    if n <= 0 {
        Seq::empty()
    } else {
        let o = order_of(keys, n - 1);
        o.insert(upper_from(keys, o, keys[n - 1], 0), n - 1)
    }
}

/// Sorted by key along the order.
pub open spec fn ordered(keys: Seq<i128>, o: Seq<int>) -> bool {
    forall|a: int, b: int| 0 <= a < b < o.len() ==> keys[#[trigger] o[a]] <= keys[#[trigger] o[b]]
}

proof fn lemma_upper_from(keys: Seq<i128>, o: Seq<int>, key: i128, j: int)
    requires
        0 <= j <= o.len(),
    ensures
        j <= upper_from(keys, o, key, j) <= o.len(),
        forall|m: int| j <= m < upper_from(keys, o, key, j) ==> keys[#[trigger] o[m]] <= key,
        upper_from(keys, o, key, j) < o.len() ==> keys[o[upper_from(keys, o, key, j)]] > key,
    decreases o.len() - j,
{
    if j < o.len() && keys[o[j]] <= key {
        lemma_upper_from(keys, o, key, j + 1);
    }
}

/// The stable order holds each index below `n` exactly once, and is sorted by key.
pub proof fn lemma_order_of(keys: Seq<i128>, n: int)
    requires
        0 <= n <= keys.len(),
    ensures
        order_of(keys, n).len() == n,
        forall|x: int| order_of(keys, n).contains(x) <==> 0 <= x < n,
        forall|a: int| 0 <= a < n ==> 0 <= #[trigger] order_of(keys, n)[a] < n,
        ordered(keys, order_of(keys, n)),
    decreases n,
{
    if n > 0 {
        lemma_order_of(keys, n - 1);
        let o = order_of(keys, n - 1);
        let key = keys[n - 1];
        lemma_upper_from(keys, o, key, 0);
        let p = upper_from(keys, o, key, 0);
        let o2 = o.insert(p, n - 1);
        o.insert_ensures(p, n - 1);
        assert(o2 == order_of(keys, n));
        assert forall|a: int| 0 <= a < n implies 0 <= #[trigger] o2[a] < n by {
            if a > p {
                assert(o2[a] == o[a - 1]);
            }
        }
        assert forall|x: int| o2.contains(x) <==> 0 <= x < n by {
            if o2.contains(x) {
                let a = choose|a: int| 0 <= a < o2.len() && o2[a] == x;
                assert(0 <= o2[a] < n);
            }
            if 0 <= x < n {
                if x == n - 1 {
                    assert(o2[p] == x);
                } else {
                    assert(o.contains(x));
                    let a = choose|a: int| 0 <= a < o.len() && o[a] == x;
                    if a < p {
                        assert(o2[a] == x);
                    } else {
                        assert(o2[a + 1] == x);
                    }
                }
            }
        }
        assert forall|a: int, b: int| 0 <= a < b < o2.len() implies keys[#[trigger] o2[a]] <= keys[#[trigger] o2[b]] by {
            if b < p {
            } else if b == p {
                assert(keys[o2[a]] <= key);
            } else if a < p {
                assert(o2[b] == o[b - 1]);
                assert(keys[o[p]] > key);
                if b - 1 > p {
                    assert(keys[o[p]] <= keys[o[b - 1]]);
                }
            } else if a == p {
                assert(o2[b] == o[b - 1]);
                assert(keys[o[p]] > key);
                if b - 1 > p {
                    assert(keys[o[p]] <= keys[o[b - 1]]);
                }
            } else {
                assert(o2[a] == o[a - 1]);
                assert(o2[b] == o[b - 1]);
            }
        }
    }
}

pub open spec fn as_ints(v: Seq<usize>) -> Seq<int> {
    v.map_values(|x: usize| x as int)
}

/// The indices of `keys` in stable ascending order of key.
pub fn stable_order(keys: &Vec<i128>) -> (o: Vec<usize>)
    ensures
        as_ints(o@) == order_of(keys@, keys@.len() as int),
{
    let mut o: Vec<usize> = Vec::new();
    let mut i: usize = 0;
    while i < keys.len()
        invariant
            i <= keys.len(),
            as_ints(o@) == order_of(keys@, i as int),
        decreases keys.len() - i,
    {
        proof {
            lemma_order_of(keys@, i as int);
            assert forall|a: int| 0 <= a < o@.len() implies 0 <= #[trigger] o@[a] < i by {
                assert(as_ints(o@)[a] == o@[a] as int);
            }
        }
        let key = keys[i];
        let mut p: usize = 0;
        while p < o.len() && keys[o[p]] <= key
            invariant
                p <= o.len(),
                i < keys.len(),
                as_ints(o@) == order_of(keys@, i as int),
                forall|a: int| 0 <= a < o@.len() ==> 0 <= #[trigger] o@[a] < i,
                upper_from(keys@, as_ints(o@), key, 0) == upper_from(keys@, as_ints(o@), key, p as int),
            decreases o.len() - p,
        {
            p = p + 1;
        }
        proof {
            if p < o.len() {
                assert(keys@[as_ints(o@)[p as int]] > key);
            }
        }
        let ghost before = as_ints(o@);
        o.insert(p, i);
        assert(as_ints(o@) =~= before.insert(p as int, i as int));
        i = i + 1;
    }
    o
}

/// The position a tier selects among `n` candidates: its index, or the last one when the
/// index is past the end.
pub open spec fn tier_position(index: nat, n: nat) -> int {
    if index < n { index as int } else { n - 1 }
}

/// The position in `keys` of the candidate a tier selects, `None` only for no candidates.
pub open spec fn selected_spec(keys: Seq<i128>, index: nat) -> Option<int> {
    if keys.len() == 0 {
        None
    } else {
        Some(order_of(keys, keys.len() as int)[tier_position(index, keys.len())])
    }
}

/// Picks the candidate a tier asks for: the `index`-th in stable ascending key order, or the
/// highest when the index is past the end.
pub fn select_by_rank(keys: &Vec<i128>, index: usize) -> (r: Option<usize>)
    ensures
        match selected_spec(keys@, index as nat) {
            Some(k) => r == Some(k as usize) && 0 <= k < keys@.len(),
            None => r is None,
        },
{
    if keys.len() == 0 {
        return None;
    }
    let o = stable_order(keys);
    proof { lemma_order_of(keys@, keys@.len() as int); }
    let pos = if index < o.len() { index } else { o.len() - 1 };
    assert(as_ints(o@)[pos as int] == o@[pos as int] as int);
    Some(o[pos])
}

/// A higher tier never selects a lower key than a lower tier.
pub proof fn lemma_selection_monotonic(keys: Seq<i128>, low: nat, high: nat)
    requires
        low <= high,
        keys.len() > 0,
    ensures
        keys[selected_spec(keys, low)->Some_0] <= keys[selected_spec(keys, high)->Some_0],
{
    lemma_order_of(keys, keys.len() as int);
    let o = order_of(keys, keys.len() as int);
    let a = tier_position(low, keys.len());
    let b = tier_position(high, keys.len());
    if a < b {
        assert(keys[o[a]] <= keys[o[b]]);
    }
}

/// A tier past the end selects a candidate whose key is the maximum.
pub proof fn lemma_selection_past_end_is_max(keys: Seq<i128>, index: nat)
    requires
        keys.len() > 0,
        index >= keys.len(),
    ensures
        selected_spec(keys, index) is Some,
        0 <= selected_spec(keys, index)->Some_0 < keys.len(),
        forall|j: int| 0 <= j < keys.len() ==> #[trigger] keys[j] <= keys[selected_spec(keys, index)->Some_0],
{
    lemma_order_of(keys, keys.len() as int);
    let n = keys.len() as int;
    let o = order_of(keys, n);
    assert forall|j: int| 0 <= j < keys.len() implies #[trigger] keys[j] <= keys[selected_spec(keys, index)->Some_0] by {
        assert(o.contains(j));
        let a = choose|a: int| 0 <= a < o.len() && o[a] == j;
        if a < n - 1 {
            assert(keys[o[a]] <= keys[o[n - 1]]);
        }
    }
}

} // verus!
