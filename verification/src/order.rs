//! Stable ordering by integer keys.

use vstd::prelude::*;

verus! {

/// Whether position `a` comes before position `b` once `keys` are put in
/// ascending order with equal keys left in place.
pub open spec fn comes_before(keys: Seq<i128>, a: int, b: int) -> bool {
    keys[a] < keys[b] || (keys[a] == keys[b] && a < b)
}

/// Whether `p` lists the positions of `keys` in ascending order of key,
/// positions with equal keys in ascending order.
pub open spec fn is_stable_order(keys: Seq<i128>, p: Seq<usize>) -> bool {
    &&& p.len() == keys.len()
    &&& forall|i: int| 0 <= i < p.len() ==> (#[trigger] p[i]) < keys.len()
    &&& forall|i: int, j: int|
        0 <= i < j < p.len() ==> comes_before(keys, #[trigger] p[i] as int, #[trigger] p[j] as int)
}

/// Where position `k` goes in the order `p`: behind the last listed
/// position whose key is not greater.
pub open spec fn slot_for(keys: Seq<i128>, p: Seq<usize>, k: int) -> int
    decreases p.len(),
{
    if p.len() == 0 {
        0
    } else if keys[p.last() as int] <= keys[k] {
        p.len() as int
    } else {
        slot_for(keys, p.drop_last(), k)
    }
}

/// The stable order of the first `n` positions of `keys`.
pub open spec fn order_of_first(keys: Seq<i128>, n: nat) -> Seq<usize>
    decreases n,
{
    if n == 0 {
        Seq::empty()
    } else {
        let p = order_of_first(keys, (n - 1) as nat);
        p.insert(slot_for(keys, p, n - 1), (n - 1) as usize)
    }
}

/// The positions of `keys` in ascending order of key, positions with equal
/// keys in ascending order.
pub open spec fn stable_positions(keys: Seq<i128>) -> Seq<usize> {
    order_of_first(keys, keys.len())
}

/// The slot for key `k` lies within `p`; every key from the slot on is
/// greater than key `k`, and the key just before it is not.
pub proof fn lemma_slot_for(keys: Seq<i128>, p: Seq<usize>, k: int)
    ensures
        0 <= slot_for(keys, p, k) <= p.len(),
        forall|i: int| slot_for(keys, p, k) <= i < p.len() ==> keys[(#[trigger] p[i]) as int] > keys[k],
        slot_for(keys, p, k) > 0 ==> keys[p[slot_for(keys, p, k) - 1] as int] <= keys[k],
    decreases p.len(),
{
    if p.len() == 0 {
    } else if keys[p.last() as int] <= keys[k] {
    } else {
        let t = p.drop_last();
        lemma_slot_for(keys, t, k);
        let s = slot_for(keys, t, k);
        assert forall|i: int| s <= i < p.len() implies keys[(#[trigger] p[i]) as int] > keys[k] by {
            if i < t.len() {
                assert(t[i] == p[i]);
            }
        }
        if s > 0 {
            assert(t[s - 1] == p[s - 1]);
        }
    }
}

/// The order of the first `n` positions is a stable order of those keys.
pub proof fn lemma_order_of_first(keys: Seq<i128>, n: nat)
    requires
        n <= keys.len(),
        keys.len() <= usize::MAX,
    ensures
        order_of_first(keys, n).len() == n,
        forall|i: int| 0 <= i < n ==> (#[trigger] order_of_first(keys, n)[i]) < n,
        forall|i: int, j: int|
            0 <= i < j < n ==> comes_before(
                keys,
                #[trigger] order_of_first(keys, n)[i] as int,
                #[trigger] order_of_first(keys, n)[j] as int,
            ),
    decreases n,
{
    if n > 0 {
        let before = order_of_first(keys, (n - 1) as nat);
        lemma_order_of_first(keys, (n - 1) as nat);
        lemma_slot_for(keys, before, n - 1);
        let pos = slot_for(keys, before, n - 1);
        let p = order_of_first(keys, n);
        assert(p == before.insert(pos, (n - 1) as usize));
        assert forall|i: int| 0 <= i < n implies (#[trigger] p[i]) < n by {
            if i < pos {
                assert(p[i] == before[i]);
            } else if i > pos {
                assert(p[i] == before[i - 1]);
            }
        }
        assert forall|i: int, j: int| 0 <= i < j < n implies comes_before(
            keys,
            #[trigger] p[i] as int,
            #[trigger] p[j] as int,
        ) by {
            if j < pos {
                assert(p[i] == before[i] && p[j] == before[j]);
            } else if j == pos {
                assert(p[i] == before[i]);
                if i < pos - 1 {
                    assert(comes_before(keys, before[i] as int, before[pos - 1] as int));
                }
            } else {
                assert(p[j] == before[j - 1]);
                if i < pos {
                    assert(p[i] == before[i]);
                } else if i == pos {
                } else {
                    assert(p[i] == before[i - 1]);
                }
            }
        }
    }
}

/// [`stable_positions`] is a stable order.
pub proof fn lemma_stable_positions(keys: Seq<i128>)
    requires
        keys.len() <= usize::MAX,
    ensures
        is_stable_order(keys, stable_positions(keys)),
{
    lemma_order_of_first(keys, keys.len());
}

/// A stable order never lists a position twice.
pub proof fn lemma_stable_order_injective(keys: Seq<i128>, p: Seq<usize>)
    requires
        is_stable_order(keys, p),
    ensures
        forall|i: int, j: int| 0 <= i < p.len() && 0 <= j < p.len() && i != j ==> p[i] != p[j],
{
    assert forall|i: int, j: int| 0 <= i < p.len() && 0 <= j < p.len() && i != j implies p[i]
        != p[j] by {
        if i < j {
            assert(comes_before(keys, p[i] as int, p[j] as int));
        } else {
            assert(comes_before(keys, p[j] as int, p[i] as int));
        }
    }
}

/// The positions of `keys` in ascending order of key; positions with equal
/// keys stay in the order in which they stood.
pub fn stable_order(keys: &Vec<i128>) -> (p: Vec<usize>)
    ensures
        p@ == stable_positions(keys@),
        is_stable_order(keys@, p@),
{
    let n = keys.len();
    let mut p: Vec<usize> = Vec::new();
    let mut k: usize = 0;
    while k < n
        invariant
            n == keys@.len(),
            k <= n,
            p@ == order_of_first(keys@, k as nat),
        decreases n - k,
    {
        let key = keys[k];
        proof {
            lemma_order_of_first(keys@, k as nat);
            lemma_slot_for(keys@, p@, k as int);
        }
        let mut pos: usize = p.len();
        while pos > 0 && keys[p[pos - 1]] > key
            invariant
                n == keys@.len(),
                k < n,
                key == keys@[k as int],
                pos <= p@.len(),
                p@.len() == k,
                forall|i: int| 0 <= i < p@.len() ==> (#[trigger] p@[i]) < k,
                slot_for(keys@, p@, k as int) <= pos,
            decreases pos,
        {
            proof {
                lemma_slot_for(keys@, p@, k as int);
            }
            pos -= 1;
        }
        proof {
            lemma_slot_for(keys@, p@, k as int);
            let s = slot_for(keys@, p@, k as int);
            if s < pos {
                assert(keys@[p@[pos - 1] as int] > key);
            }
            assert(s == pos);
        }
        p.insert(pos, k);
        k += 1;
    }
    proof {
        lemma_stable_positions(keys@);
    }
    p
}

/// The elements from the last to the first.
pub fn reversed<T>(v: Vec<T>) -> (r: Vec<T>)
    ensures
        r@.len() == v@.len(),
        forall|i: int| 0 <= i < r@.len() ==> #[trigger] r@[i] == v@[v@.len() - 1 - i],
{
    let ghost all = v@;
    let n = v.len();
    let mut rest = v;
    let mut out: Vec<T> = Vec::new();
    while rest.len() > 0
        invariant
            rest@.len() + out@.len() == n,
            n == all.len(),
            rest@ == all.subrange(0, rest@.len() as int),
            forall|i: int| 0 <= i < out@.len() ==> #[trigger] out@[i] == all[n - 1 - i],
        decreases rest.len(),
    {
        let ghost len = rest@.len();
        match rest.pop() {
            Some(x) => {
                assert(x == all[len - 1]);
                out.push(x);
            },
            None => {},
        }
    }
    out
}

} // verus!
