//! Choosing by key: the first smallest, the last largest, and the stable order.
use vstd::prelude::*;

verus! {

/// `index` is where the smallest key first stands.
pub open spec fn is_first_minimum(keys: Seq<u64>, index: int) -> bool {
    &&& 0 <= index < keys.len()
    &&& forall|j: int| 0 <= j < keys.len() ==> keys[index] <= #[trigger] keys[j]
    &&& forall|j: int| 0 <= j < index ==> keys[index] < #[trigger] keys[j]
}

/// `index` is where the largest key last stands.
pub open spec fn is_last_maximum(keys: Seq<u128>, index: int) -> bool {
    &&& 0 <= index < keys.len()
    &&& forall|j: int| 0 <= j < keys.len() ==> #[trigger] keys[j] <= keys[index]
    &&& forall|j: int| index < j < keys.len() ==> #[trigger] keys[j] < keys[index]
}

/// `order` lists the positions of `keys` by key, and by position where keys are equal.
pub open spec fn is_stable_order(keys: Seq<u64>, order: Seq<usize>) -> bool {
    &&& order.len() == keys.len()
    &&& forall|i: int| 0 <= i < order.len() ==> 0 <= #[trigger] order[i] < keys.len()
    &&& forall|i: int, j: int|
        0 <= i < j < order.len() ==> comes_before(keys, #[trigger] order[i], #[trigger] order[j])
}

/// The smaller key comes first; the earlier position where keys are equal.
pub open spec fn comes_before(keys: Seq<u64>, a: usize, b: usize) -> bool {
    keys[a as int] < keys[b as int] || (keys[a as int] == keys[b as int] && a < b)
}

/// Finds the first smallest key.
pub fn first_minimum(keys: &Vec<u64>) -> (r: usize)
    requires
        keys@.len() > 0,
    ensures
        is_first_minimum(keys@, r as int),
{
    let mut best: usize = 0;
    for i in 1..keys.len()
        invariant
            0 <= best < i <= keys@.len(),
            forall|j: int| 0 <= j < i ==> keys@[best as int] <= #[trigger] keys@[j],
            forall|j: int| 0 <= j < best ==> keys@[best as int] < #[trigger] keys@[j],
    {
        if keys[i] < keys[best] {
            best = i;
        }
    }
    best
}

/// Finds the last largest key.
pub fn last_maximum(keys: &Vec<u128>) -> (r: usize)
    requires
        keys@.len() > 0,
    ensures
        is_last_maximum(keys@, r as int),
{
    let mut best: usize = 0;
    for i in 1..keys.len()
        invariant
            0 <= best < i <= keys@.len(),
            forall|j: int| 0 <= j < i ==> #[trigger] keys@[j] <= keys@[best as int],
            forall|j: int| best < j < i ==> #[trigger] keys@[j] < keys@[best as int],
    {
        if keys[i] >= keys[best] {
            best = i;
        }
    }
    best
}

/// Lists the positions of `keys` by key, keeping the order of equal keys.
pub fn stable_order(keys: &Vec<u64>) -> (r: Vec<usize>)
    ensures
        is_stable_order(keys@, r@),
{
    let mut order: Vec<usize> = Vec::new();
    for i in 0..keys.len()
        invariant
            order@.len() == i <= keys@.len(),
            forall|k: int| 0 <= k < order@.len() ==> 0 <= #[trigger] order@[k] < i,
            forall|a: int, b: int|
                0 <= a < b < order@.len() ==> comes_before(
                    keys@,
                    #[trigger] order@[a],
                    #[trigger] order@[b],
                ),
    {
        let mut at: usize = order.len();
        while at > 0 && keys[order[at - 1]] > keys[i]
            invariant
                at <= order@.len() == i < keys@.len(),
                forall|k: int| 0 <= k < order@.len() ==> 0 <= #[trigger] order@[k] < i,
                forall|k: int|
                    at <= k < order@.len() ==> keys@[#[trigger] order@[k] as int] > keys@[i as int],
            decreases at,
        {
            at = at - 1;
        }
        let ghost before = order@;
        order.insert(at, i);
        assert forall|a: int, b: int| 0 <= a < b < order@.len() implies comes_before(
            keys@,
            #[trigger] order@[a],
            #[trigger] order@[b],
        ) by {
            if b == at {
                assert(order@[a] == before[a]);
                assert(comes_before(keys@, before[a], before[at - 1]) || a == at - 1);
            } else if a == at {
                assert(order@[b] == before[b - 1]);
            } else {
                let x = if a < at { a } else { a - 1 };
                let y = if b < at { b } else { b - 1 };
                assert(order@[a] == before[x] && order@[b] == before[y]);
            }
        }
        assert forall|k: int| 0 <= k < order@.len() implies 0 <= #[trigger] order@[k] < i + 1 by {
            if k < at {
                assert(order@[k] == before[k]);
            } else if k > at {
                assert(order@[k] == before[k - 1]);
            }
        }
    }
    order
}

/// One list of positions by key, and by position where keys are equal, is all there is.
pub proof fn stable_order_is_unique(keys: Seq<u64>, a: Seq<usize>, b: Seq<usize>)
    requires
        is_stable_order(keys, a),
        is_stable_order(keys, b),
    ensures
        a == b,
{
    lemma_order_is_complete(keys, a);
    lemma_order_is_complete(keys, b);
    lemma_prefixes_agree(keys, a, b, keys.len());
    assert(a.take(keys.len() as int) == a);
    assert(b.take(keys.len() as int) == b);
}

proof fn lemma_order_is_complete(keys: Seq<u64>, order: Seq<usize>)
    requires
        is_stable_order(keys, order),
    ensures
        forall|p: usize| p < keys.len() ==> #[trigger] order.contains(p),
{
    let positions = order.to_set();
    let all = vstd::set_lib::set_int_range(0, keys.len() as int);
    let ints = order.map_values(|p: usize| p as int);
    assert(ints.no_duplicates()) by {
        assert forall|i: int, j: int| 0 <= i < ints.len() && 0 <= j < ints.len() && i != j implies ints[i]
            != ints[j] by {
            if i < j {
                assert(comes_before(keys, order[i], order[j]));
            } else {
                assert(comes_before(keys, order[j], order[i]));
            }
        }
    }
    ints.unique_seq_to_set();
    vstd::set_lib::lemma_int_range(0, keys.len() as int);
    assert(ints.to_set().subset_of(all)) by {
        assert forall|x: int| ints.to_set().contains(x) implies all.contains(x) by {
            let i = choose|i: int| 0 <= i < ints.len() && ints[i] == x;
            assert(order[i] == x);
        }
    }
    vstd::set_lib::lemma_subset_equality(ints.to_set(), all);
    assert forall|p: usize| p < keys.len() implies #[trigger] order.contains(p) by {
        assert(all.contains(p as int));
        assert(ints.to_set().contains(p as int));
        let i = choose|i: int| 0 <= i < ints.len() && ints[i] == p as int;
        assert(order[i] == p);
    }
}

proof fn lemma_prefixes_agree(keys: Seq<u64>, a: Seq<usize>, b: Seq<usize>, n: nat)
    requires
        is_stable_order(keys, a),
        is_stable_order(keys, b),
        forall|p: usize| p < keys.len() ==> #[trigger] a.contains(p),
        forall|p: usize| p < keys.len() ==> #[trigger] b.contains(p),
        n <= keys.len(),
    ensures
        a.take(n as int) == b.take(n as int),
    decreases n,
{
    if n > 0 {
        let k = (n - 1) as int;
        lemma_prefixes_agree(keys, a, b, k as nat);
        assert forall|i: int| 0 <= i < k implies a[i] == b[i] by {
            assert(a.take(k)[i] == b.take(k)[i]);
        }
        assert(a[k] == b[k]) by {
            assert(b.contains(a[k]));
            let j = choose|j: int| 0 <= j < b.len() && b[j] == a[k];
            assert(a.contains(b[k]));
            let i = choose|i: int| 0 <= i < a.len() && a[i] == b[k];
            if j < k {
                assert(comes_before(keys, a[j], a[k]));
            }
            if i < k {
                assert(comes_before(keys, b[i], b[k]));
            }
            if j > k && i > k {
                assert(comes_before(keys, b[k], b[j]));
                assert(comes_before(keys, a[k], a[i]));
            }
        }
        assert(a.take(n as int) =~= a.take(k).push(a[k]));
        assert(b.take(n as int) =~= b.take(k).push(b[k]));
    }
}

/// Positions ordered by key stand with a smaller key in front of a larger one, of equal keys the
/// earlier position first, and no position is left out.
pub proof fn orders_leave_nothing_out(keys: Seq<u64>, order: Seq<usize>, i: int, j: int, k: int)
    requires
        keys.len() <= usize::MAX,
        is_stable_order(keys, order),
        0 <= i < j < order.len(),
        0 <= k < keys.len(),
    ensures
        order.len() == keys.len(),
        keys[order[i] as int] <= keys[order[j] as int],
        keys[order[i] as int] == keys[order[j] as int] ==> order[i] < order[j],
        exists|at: int| 0 <= at < order.len() && #[trigger] order[at] == k,
{
    assert(comes_before(keys, order[i], order[j]));
    lemma_every_position(keys, order, k);
}

/// The first smallest key is no larger than any other, and smaller than those in front of it; the
/// last largest is no smaller than any other, and larger than those behind it.
pub proof fn the_least_and_the_largest_are_found(
    keys: Seq<u64>,
    least: int,
    times: Seq<u128>,
    largest: int,
    i: int,
)
    requires
        is_first_minimum(keys, least),
        is_last_maximum(times, largest),
    ensures
        0 <= i < keys.len() ==> keys[least] <= keys[i],
        0 <= i < least ==> keys[least] < keys[i],
        0 <= i < times.len() ==> times[i] <= times[largest],
        largest < i < times.len() ==> times[i] < times[largest],
{
}

/// Every position stands somewhere in an order.
pub proof fn lemma_every_position(keys: Seq<u64>, order: Seq<usize>, k: int)
    requires
        keys.len() <= usize::MAX,
        is_stable_order(keys, order),
        0 <= k < keys.len(),
    ensures
        exists|at: int| 0 <= at < order.len() && #[trigger] order[at] == k,
{
    lemma_order_is_complete(keys, order);
    assert(order.contains(k as usize));
    let at = order.index_of(k as usize);
    assert(order[at] == k);
}

} // verus!
