//! Orderings of integer keys: a stable ascending order, and the first position
//! of each distinct key in ascending order.

use vstd::prelude::*;

verus! {

/// Position `a` comes before position `b`: by key, and for equal keys by
/// position.
pub open spec fn before(keys: Seq<i64>, a: int, b: int) -> bool {
    keys[a] < keys[b] || (keys[a] == keys[b] && a < b)
}

/// `order` lists every position of `keys` exactly once, by ascending key, and
/// positions with equal keys in ascending order.
pub open spec fn is_stable_order(keys: Seq<i64>, order: Seq<usize>) -> bool {
    &&& order.len() == keys.len()
    &&& forall|i: int| 0 <= i < order.len() ==> 0 <= #[trigger] order[i] < keys.len()
    &&& forall|i: int, j: int|
        0 <= i < j < order.len() ==> before(keys, #[trigger] order[i] as int, #[trigger] order[j] as int)
    &&& forall|k: int| 0 <= k < keys.len() ==> #[trigger] lists(order, k)
}

/// Position `k` occurs in `order`.
pub open spec fn lists(order: Seq<usize>, k: int) -> bool {
    exists|i: int| 0 <= i < order.len() && #[trigger] order[i] == k
}

/// One of the positions in `firsts` holds the key `key`.
pub open spec fn covers(keys: Seq<i64>, firsts: Seq<usize>, key: i64) -> bool {
    exists|i: int| 0 <= i < firsts.len() && keys[#[trigger] firsts[i] as int] == key
}

/// `firsts` lists, by strictly ascending key, the first position of every key
/// that occurs in `keys`.
pub open spec fn is_distinct_order(keys: Seq<i64>, firsts: Seq<usize>) -> bool {
    &&& forall|i: int| 0 <= i < firsts.len() ==> 0 <= #[trigger] firsts[i] < keys.len()
    &&& forall|i: int, j: int|
        0 <= i < j < firsts.len() ==> keys[#[trigger] firsts[i] as int] < keys[#[trigger] firsts[j] as int]
    &&& forall|i: int, k: int|
        0 <= i < firsts.len() && 0 <= k < firsts[i] ==> #[trigger] keys[k] != keys[#[trigger] firsts[i] as int]
    &&& forall|k: int| 0 <= k < keys.len() ==> covers(keys, firsts, #[trigger] keys[k])
}

/// The stable ascending order of `keys`.
pub open spec fn stable_order_of(keys: Seq<i64>) -> Seq<usize> {
    choose|order: Seq<usize>| is_stable_order(keys, order)
}

/// The first positions of the distinct keys of `keys`, by ascending key.
pub open spec fn distinct_order_of(keys: Seq<i64>) -> Seq<usize> {
    choose|firsts: Seq<usize>| is_distinct_order(keys, firsts)
}

proof fn lemma_stable_orders_agree(keys: Seq<i64>, p: Seq<usize>, q: Seq<usize>, i: int)
    requires
        is_stable_order(keys, p),
        is_stable_order(keys, q),
        0 <= i < keys.len(),
    ensures
        forall|j: int| 0 <= j <= i ==> p[j] == q[j],
    decreases i,
{
    if i > 0 {
        lemma_stable_orders_agree(keys, p, q, i - 1);
    }
    let k = p[i] as int;
    assert(lists(q, k));
    let j = choose|j: int| 0 <= j < q.len() && q[j] == k;
    if j < i {
        assert(p[j] == q[j]);
        assert(before(keys, p[j] as int, p[i] as int));
    } else if j > i {
        let m = q[i] as int;
        assert(before(keys, q[i] as int, q[j] as int));
        assert(lists(p, m));
        let j2 = choose|j2: int| 0 <= j2 < p.len() && p[j2] == m;
        if j2 < i {
            assert(p[j2] == q[j2]);
            assert(before(keys, q[j2] as int, q[i] as int));
        } else if j2 > i {
            assert(before(keys, p[i] as int, p[j2] as int));
        }
    }
}

/// A sequence of keys has only one stable order.
pub proof fn lemma_stable_order_unique(keys: Seq<i64>, p: Seq<usize>, q: Seq<usize>)
    requires
        is_stable_order(keys, p),
        is_stable_order(keys, q),
    ensures
        p == q,
{
    if keys.len() > 0 {
        lemma_stable_orders_agree(keys, p, q, keys.len() - 1);
    }
    assert(p =~= q);
}

proof fn lemma_distinct_orders_agree(keys: Seq<i64>, p: Seq<usize>, q: Seq<usize>, i: int)
    requires
        is_distinct_order(keys, p),
        is_distinct_order(keys, q),
        0 <= i < p.len(),
    ensures
        i < q.len(),
        forall|j: int| 0 <= j <= i ==> p[j] == q[j],
    decreases i,
{
    if i > 0 {
        lemma_distinct_orders_agree(keys, p, q, i - 1);
    }
    let k = p[i] as int;
    // the key at p[i] has a representative in q
    assert(covers(keys, q, keys[k]));
    let j = choose|j: int| 0 <= j < q.len() && keys[q[j] as int] == keys[k];
    if j < i {
        assert(p[j] == q[j]);
        assert(keys[p[j] as int] < keys[p[i] as int]);
    } else if j > i {
        let m = q[i] as int;
        assert(keys[q[i] as int] < keys[q[j] as int]);
        assert(covers(keys, p, keys[m]));
        let j2 = choose|j2: int| 0 <= j2 < p.len() && keys[p[j2] as int] == keys[m];
        if j2 < i {
            assert(p[j2] == q[j2]);
            assert(keys[q[j2] as int] < keys[q[i] as int]);
        } else if j2 > i {
            assert(keys[p[i] as int] < keys[p[j2] as int]);
        }
    }
    // so j == i: both are first positions of one key
    assert(j == i);
    let a = p[i] as int;
    let b = q[i] as int;
    if a < b {
        assert(keys[a] != keys[q[i] as int]);
    } else if b < a {
        assert(keys[b] != keys[p[i] as int]);
    }
}

/// A sequence of keys has only one list of first positions by ascending key.
pub proof fn lemma_distinct_order_unique(keys: Seq<i64>, p: Seq<usize>, q: Seq<usize>)
    requires
        is_distinct_order(keys, p),
        is_distinct_order(keys, q),
    ensures
        p == q,
{
    if p.len() > 0 {
        lemma_distinct_orders_agree(keys, p, q, p.len() - 1);
    }
    if q.len() > 0 {
        lemma_distinct_orders_agree(keys, q, p, q.len() - 1);
    }
    assert(p =~= q);
}

/// Adding the last position of `keys` to the stable order of the positions
/// before it, behind every position whose key is not greater, gives the
/// stable order of `keys`.
proof fn lemma_insert_last(keys: Seq<i64>, prev: Seq<usize>, p: int)
    requires
        keys.len() > 0,
        keys.len() - 1 <= usize::MAX,
        is_stable_order(keys.drop_last(), prev),
        0 <= p <= prev.len(),
        forall|j: int| p <= j < prev.len() ==> keys[#[trigger] prev[j] as int] > keys.last(),
        p > 0 ==> keys[prev[p - 1] as int] <= keys.last(),
    ensures
        is_stable_order(keys, prev.insert(p, (keys.len() - 1) as usize)),
{
    let seen = keys.drop_last();
    let i = keys.len() - 1;
    let next = prev.insert(p, i as usize);
    assert forall|a: int| 0 <= a < p implies keys[#[trigger] prev[a] as int] <= keys[i] by {
        if a < p - 1 {
            assert(before(seen, prev[a] as int, prev[p - 1] as int));
        }
    }
    assert forall|a: int, b: int| 0 <= a < b < next.len() implies before(
        keys,
        #[trigger] next[a] as int,
        #[trigger] next[b] as int,
    ) by {
        if b < p {
            assert(before(seen, prev[a] as int, prev[b] as int));
        } else if b == p {
            assert(next[a] == prev[a]);
        } else if a < p {
            assert(before(seen, prev[a] as int, prev[b - 1] as int));
        } else if a == p {
            assert(next[b] == prev[b - 1]);
        } else {
            assert(before(seen, prev[a - 1] as int, prev[b - 1] as int));
        }
    }
    assert forall|k: int| 0 <= k < keys.len() implies #[trigger] lists(next, k) by {
        if k == i {
            assert(next[p] == k);
        } else {
            assert(lists(prev, k));
            let x = choose|x: int| 0 <= x < prev.len() && prev[x] == k;
            if x < p {
                assert(next[x] == k);
            } else {
                assert(next[x + 1] == k);
            }
        }
    }
}

/// Where the last position of `keys` goes in the stable order `prev` of the
/// positions before it.
proof fn lemma_insertion_point(keys: Seq<i64>, prev: Seq<usize>, hi: int) -> (p: int)
    requires
        keys.len() > 0,
        is_stable_order(keys.drop_last(), prev),
        0 <= hi <= prev.len(),
        forall|j: int| hi <= j < prev.len() ==> keys[#[trigger] prev[j] as int] > keys.last(),
    ensures
        0 <= p <= hi,
        forall|j: int| p <= j < prev.len() ==> keys[#[trigger] prev[j] as int] > keys.last(),
        p > 0 ==> keys[prev[p - 1] as int] <= keys.last(),
    decreases hi,
{
    if hi > 0 && keys[prev[hi - 1] as int] > keys.last() {
        lemma_insertion_point(keys, prev, hi - 1)
    } else {
        hi
    }
}

/// Every sequence of keys that a `Vec` can hold has a stable order.
pub proof fn lemma_stable_order_exists(keys: Seq<i64>)
    requires
        keys.len() <= usize::MAX,
    ensures
        is_stable_order(keys, stable_order_of(keys)),
    decreases keys.len(),
{
    if keys.len() == 0 {
        assert(is_stable_order(keys, Seq::<usize>::empty()));
    } else {
        lemma_stable_order_exists(keys.drop_last());
        let prev = stable_order_of(keys.drop_last());
        let p = lemma_insertion_point(keys, prev, prev.len() as int);
        lemma_insert_last(keys, prev, p);
        assert(is_stable_order(keys, prev.insert(p, (keys.len() - 1) as usize)));
    }
}

/// Where a key that `firsts` does not cover goes among the keys it covers.
proof fn lemma_distinct_point(keys: Seq<i64>, firsts: Seq<usize>, hi: int) -> (p: int)
    requires
        keys.len() > 0,
        is_distinct_order(keys.drop_last(), firsts),
        !covers(keys.drop_last(), firsts, keys.last()),
        0 <= hi <= firsts.len(),
        forall|j: int| hi <= j < firsts.len() ==> keys[#[trigger] firsts[j] as int] > keys.last(),
    ensures
        0 <= p <= hi,
        forall|j: int| p <= j < firsts.len() ==> keys[#[trigger] firsts[j] as int] > keys.last(),
        forall|j: int| 0 <= j < p ==> keys[#[trigger] firsts[j] as int] < keys.last(),
    decreases hi,
{
    let seen = keys.drop_last();
    if hi > 0 && keys[firsts[hi - 1] as int] > keys.last() {
        lemma_distinct_point(keys, firsts, hi - 1)
    } else {
        assert forall|j: int| 0 <= j < hi implies keys[#[trigger] firsts[j] as int] < keys.last() by {
            assert(seen[firsts[j] as int] != keys.last());
            assert(seen[firsts[hi - 1] as int] != keys.last());
            if j < hi - 1 {
                assert(seen[firsts[j] as int] < seen[firsts[hi - 1] as int]);
            }
        }
        hi
    }
}

/// The first positions of the keys before the last stay the first positions
/// of all keys when the last key occurs earlier too.
proof fn lemma_distinct_keep(keys: Seq<i64>, prev: Seq<usize>)
    requires
        keys.len() > 0,
        is_distinct_order(keys.drop_last(), prev),
        covers(keys.drop_last(), prev, keys.last()),
    ensures
        is_distinct_order(keys, prev),
{
    let seen = keys.drop_last();
    let i = keys.len() - 1;
    assert forall|k: int| 0 <= k < keys.len() implies covers(keys, prev, #[trigger] keys[k]) by {
        let key = keys[k];
        if k < i {
            assert(covers(seen, prev, seen[k]));
        }
        let a = choose|a: int| 0 <= a < prev.len() && seen[#[trigger] prev[a] as int] == key;
        assert(keys[prev[a] as int] == key);
    }
    assert forall|a: int, k: int| 0 <= a < prev.len() && 0 <= k < prev[a] implies #[trigger] keys[k]
        != keys[#[trigger] prev[a] as int] by {
        assert(seen[k] != seen[prev[a] as int]);
    }
    assert forall|a: int, b: int| 0 <= a < b < prev.len() implies keys[#[trigger] prev[a] as int]
        < keys[#[trigger] prev[b] as int] by {
        assert(seen[prev[a] as int] < seen[prev[b] as int]);
    }
}

/// A last key that occurs nowhere earlier joins the first positions at its
/// place in the ascending order.
proof fn lemma_distinct_insert(keys: Seq<i64>, prev: Seq<usize>, p: int)
    requires
        keys.len() > 0,
        keys.len() - 1 <= usize::MAX,
        is_distinct_order(keys.drop_last(), prev),
        !covers(keys.drop_last(), prev, keys.last()),
        0 <= p <= prev.len(),
        forall|j: int| p <= j < prev.len() ==> keys[#[trigger] prev[j] as int] > keys.last(),
        forall|j: int| 0 <= j < p ==> keys[#[trigger] prev[j] as int] < keys.last(),
    ensures
        is_distinct_order(keys, prev.insert(p, (keys.len() - 1) as usize)),
{
    let seen = keys.drop_last();
    let i = keys.len() - 1;
    let next = prev.insert(p, i as usize);
    assert forall|a: int| 0 <= a < next.len() implies 0 <= #[trigger] next[a] < keys.len() by {
        if a < p {
            assert(next[a] == prev[a]);
        } else if a > p {
            assert(next[a] == prev[a - 1]);
        }
    }
    assert forall|a: int, b: int| 0 <= a < b < next.len() implies keys[#[trigger] next[a] as int]
        < keys[#[trigger] next[b] as int] by {
        if b < p {
            assert(seen[prev[a] as int] < seen[prev[b] as int]);
        } else if b == p {
            assert(next[a] == prev[a]);
        } else if a < p {
            assert(seen[prev[a] as int] < seen[prev[b - 1] as int]);
        } else if a == p {
            assert(next[b] == prev[b - 1]);
        } else {
            assert(seen[prev[a - 1] as int] < seen[prev[b - 1] as int]);
        }
    }
    assert forall|a: int, k: int| 0 <= a < next.len() && 0 <= k < next[a] implies #[trigger] keys[k]
        != keys[#[trigger] next[a] as int] by {
        if a < p {
            assert(next[a] == prev[a]);
            assert(seen[k] != seen[prev[a] as int]);
        } else if a == p {
            if keys[k] == keys[i] {
                assert(covers(seen, prev, seen[k]));
            }
        } else {
            assert(next[a] == prev[a - 1]);
            assert(seen[k] != seen[prev[a - 1] as int]);
        }
    }
    assert forall|k: int| 0 <= k < keys.len() implies covers(keys, next, #[trigger] keys[k]) by {
        if k == i {
            assert(keys[next[p] as int] == keys[k]);
        } else {
            assert(covers(seen, prev, seen[k]));
            let a = choose|a: int| 0 <= a < prev.len() && seen[#[trigger] prev[a] as int] == seen[k];
            if a < p {
                assert(keys[next[a] as int] == keys[k]);
            } else {
                assert(keys[next[a + 1] as int] == keys[k]);
            }
        }
    }
}

/// Every sequence of keys that a `Vec` can hold has a list of first positions
/// by ascending key.
pub proof fn lemma_distinct_order_exists(keys: Seq<i64>)
    requires
        keys.len() <= usize::MAX,
    ensures
        is_distinct_order(keys, distinct_order_of(keys)),
    decreases keys.len(),
{
    if keys.len() == 0 {
        assert(is_distinct_order(keys, Seq::<usize>::empty()));
    } else {
        let seen = keys.drop_last();
        lemma_distinct_order_exists(seen);
        let prev = distinct_order_of(seen);
        if covers(seen, prev, keys.last()) {
            lemma_distinct_keep(keys, prev);
        } else {
            let p = lemma_distinct_point(keys, prev, prev.len() as int);
            lemma_distinct_insert(keys, prev, p);
            assert(is_distinct_order(keys, prev.insert(p, (keys.len() - 1) as usize)));
        }
    }
}

/// A distinct order has no more positions than there are keys.
pub proof fn lemma_distinct_order_fits(keys: Seq<i64>, firsts: Seq<usize>)
    requires
        is_distinct_order(keys, firsts),
    ensures
        firsts.len() <= keys.len(),
{
    let positions = firsts.map_values(|x: usize| x as int);
    assert forall|i: int, j: int| 0 <= i < j < positions.len() implies positions[i] != positions[j] by {
        assert(keys[firsts[i] as int] < keys[firsts[j] as int]);
    }
    assert(positions.no_duplicates());
    let within = Set::new(|k: int| 0 <= k < keys.len());
    vstd::set_lib::lemma_int_range(0, keys.len() as int);
    assert(within =~= vstd::set_lib::set_int_range(0, keys.len() as int));
    positions.unique_seq_to_set();
    assert(positions.to_set().subset_of(within)) by {
        assert forall|k: int| positions.to_set().contains(k) implies within.contains(k) by {
            let i = choose|i: int| 0 <= i < positions.len() && positions[i] == k;
            assert(0 <= firsts[i] < keys.len());
        }
    }
    vstd::set_lib::lemma_len_subset(positions.to_set(), within);
}

/// Keys in strictly ascending order are their own distinct order: every
/// position is the first of its key.
pub proof fn lemma_distinct_order_of_ascending(keys: Seq<i64>)
    requires
        keys.len() <= usize::MAX,
        forall|i: int, j: int| 0 <= i < j < keys.len() ==> #[trigger] keys[i] < #[trigger] keys[j],
    ensures
        distinct_order_of(keys) == Seq::new(keys.len(), |i: int| i as usize),
{
    let id = Seq::new(keys.len(), |i: int| i as usize);
    assert forall|k: int| 0 <= k < keys.len() implies covers(keys, id, #[trigger] keys[k]) by {
        assert(keys[id[k] as int] == keys[k]);
    }
    assert forall|a: int, k: int| 0 <= a < id.len() && 0 <= k < id[a] implies #[trigger] keys[k]
        != keys[#[trigger] id[a] as int] by {
        assert(keys[k] < keys[a]);
    }
    assert(is_distinct_order(keys, id));
    lemma_distinct_order_unique(keys, id, distinct_order_of(keys));
}


/// The positions of `keys` in stable ascending order.
pub fn stable_order(keys: &Vec<i64>) -> (order: Vec<usize>)
    ensures
        is_stable_order(keys@, order@),
        order@ == stable_order_of(keys@),
{
    let mut order: Vec<usize> = Vec::new();
    let mut i: usize = 0;
    while i < keys.len()
        invariant
            i <= keys.len(),
            is_stable_order(keys@.take(i as int), order@),
        decreases keys.len() - i,
    {
        let ghost prev = order@;
        let ghost seen = keys@.take(i as int);
        let mut p: usize = order.len();
        while p > 0 && keys[order[p - 1]] > keys[i]
            invariant
                p <= order.len(),
                order@ == prev,
                i < keys.len(),
                seen == keys@.take(i as int),
                is_stable_order(seen, prev),
                forall|j: int| p <= j < prev.len() ==> keys[#[trigger] prev[j] as int] > keys[i as int],
            decreases p,
        {
            p -= 1;
        }
        order.insert(p, i);
        proof {
            assert(keys@.take(i + 1).drop_last() =~= seen);
            lemma_insert_last(keys@.take(i + 1), prev, p as int);
        }
        i += 1;
    }
    proof {
        assert(keys@.take(i as int) =~= keys@);
        lemma_stable_order_unique(keys@, order@, stable_order_of(keys@));
    }
    order
}

/// The first position of each distinct key of `keys`, by ascending key.
pub fn distinct_order(keys: &Vec<i64>) -> (firsts: Vec<usize>)
    ensures
        is_distinct_order(keys@, firsts@),
        firsts@ == distinct_order_of(keys@),
{
    let order = stable_order(keys);
    let mut firsts: Vec<usize> = Vec::new();
    let mut x: usize = 0;
    while x < order.len()
        invariant
            x <= order.len(),
            is_stable_order(keys@, order@),
            firsts.len() <= x,
            x > 0 ==> firsts.len() > 0,
            forall|a: int| 0 <= a < firsts.len() ==> 0 <= #[trigger] firsts[a] < keys.len(),
            forall|a: int, b: int|
                0 <= a < b < firsts.len() ==> keys[#[trigger] firsts[a] as int] < keys[#[trigger] firsts[b] as int],
            forall|a: int, k: int|
                0 <= a < firsts.len() && 0 <= k < firsts[a] ==> #[trigger] keys[k] != keys[#[trigger] firsts[a] as int],
            forall|y: int| 0 <= y < x ==> covers(keys@, firsts@, keys[#[trigger] order[y] as int]),
            x > 0 ==> keys[firsts[firsts.len() - 1] as int] == keys[order[x - 1] as int],
        decreases order.len() - x,
    {
        let ghost prev = firsts@;
        let at = order[x];
        if x == 0 || keys[order[x - 1]] != keys[at] {
            firsts.push(at);
            proof {
                let next = firsts@;
                if x > 0 {
                    assert(before(keys@, order[x - 1] as int, order[x as int] as int));
                }
                assert forall|a: int, k: int| 0 <= a < next.len() && 0 <= k < next[a] implies #[trigger] keys[k]
                    != keys[#[trigger] next[a] as int] by {
                    if a == prev.len() && keys[k] == keys[at as int] {
                        assert(lists(order@, k));
                        let y = choose|y: int| 0 <= y < order.len() && order[y] == k;
                        if y < x {
                            if y < x - 1 {
                                assert(before(keys@, order[y] as int, order[x - 1] as int));
                            }
                        } else if y > x {
                            assert(before(keys@, order[x as int] as int, order[y] as int));
                        }
                    } else if a < prev.len() {
                        assert(next[a] == prev[a]);
                    }
                }
                assert forall|y: int| 0 <= y < x + 1 implies covers(
                    keys@,
                    next,
                    keys[#[trigger] order[y] as int],
                ) by {
                    if y == x {
                        assert(next[prev.len() as int] == at);
                    } else {
                        assert(covers(keys@, prev, keys[order[y] as int]));
                        let a = choose|a: int|
                            0 <= a < prev.len() && keys[#[trigger] prev[a] as int] == keys[order[y] as int];
                        assert(next[a] == prev[a]);
                    }
                }
                assert forall|a: int, b: int| 0 <= a < b < next.len() implies keys[#[trigger] next[a] as int]
                    < keys[#[trigger] next[b] as int] by {
                    if b == prev.len() {
                        assert(next[a] == prev[a]);
                        if a < prev.len() - 1 {
                            assert(keys[prev[a] as int] < keys[prev[prev.len() - 1] as int]);
                        }
                    } else {
                        assert(next[a] == prev[a] && next[b] == prev[b]);
                    }
                }
            }
        } else {
            proof {
                assert forall|y: int| 0 <= y < x + 1 implies covers(
                    keys@,
                    prev,
                    keys[#[trigger] order[y] as int],
                ) by {
                    if y == x {
                        assert(keys[prev[prev.len() - 1] as int] == keys[order[y] as int]);
                    }
                }
            }
        }
        x += 1;
    }
    proof {
        assert forall|k: int| 0 <= k < keys.len() implies covers(keys@, firsts@, #[trigger] keys[k]) by {
            assert(lists(order@, k));
            let y = choose|y: int| 0 <= y < order.len() && order[y] == k;
            assert(covers(keys@, firsts@, keys[order[y] as int]));
        }
        assert(is_distinct_order(keys@, firsts@));
        lemma_distinct_order_unique(keys@, firsts@, distinct_order_of(keys@));
    }
    firsts
}

} // verus!
