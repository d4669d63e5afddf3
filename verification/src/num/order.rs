//! Sorting that leaves equal entries in their order.

use vstd::prelude::*;

verus! {

/// Keys to sort by: `below` is a strict order in which keys may also be equal.
pub trait SortKey: Sized {
    /// Whether the key has a place in the order.
    spec fn valid(self) -> bool;

    spec fn below(self, other: Self) -> bool;

    proof fn below_is_asymmetric(a: Self, b: Self)
        requires
            a.valid(),
            b.valid(),
            a.below(b),
        ensures
            !b.below(a),
    ;

    /// A key below a second one is below every third one that is not below the second.
    proof fn below_is_transitive(a: Self, b: Self, c: Self)
        requires
            a.valid(),
            b.valid(),
            c.valid(),
            a.below(b),
            !c.below(b),
        ensures
            a.below(c),
    ;

    fn is_below(&self, other: &Self) -> (r: bool)
        requires
            self.valid(),
            other.valid(),
        ensures
            r == self.below(*other),
    ;
}

pub open spec fn all_valid<K: SortKey>(keys: Seq<K>) -> bool {
    forall|i: int| 0 <= i < keys.len() ==> (#[trigger] keys[i]).valid()
}

/// Whether entry `i` stands before entry `j`: its key is below, or the keys are equal and it came
/// first.
pub open spec fn stands_before<K: SortKey>(keys: Seq<K>, i: int, j: int) -> bool {
    keys[i].below(keys[j]) || (!keys[j].below(keys[i]) && i < j)
}

/// Whether `order` lists the indices of `keys` so that each stands before the next ones. There is
/// exactly one such list.
pub open spec fn is_stable_order<K: SortKey>(keys: Seq<K>, order: Seq<usize>) -> bool {
    &&& order.len() == keys.len()
    &&& forall|a: int| 0 <= a < order.len() ==> (#[trigger] order[a]) < keys.len()
    &&& forall|a: int, b: int|
        0 <= a < b < order.len() ==> stands_before(
            keys,
            #[trigger] order[a] as int,
            #[trigger] order[b] as int,
        )
}

/// Whether index `i` is in the list.
pub open spec fn occurs(order: Seq<usize>, i: int) -> bool {
    exists|a: int| 0 <= a < order.len() && #[trigger] order[a] == i
}

proof fn lemma_before_is_transitive<K: SortKey>(keys: Seq<K>, a: int, b: int, c: int)
    requires
        all_valid(keys),
        0 <= a < keys.len(),
        0 <= b < keys.len(),
        0 <= c < keys.len(),
        stands_before(keys, a, b),
        stands_before(keys, b, c),
    ensures
        stands_before(keys, a, c),
{
    let (ka, kb, kc) = (keys[a], keys[b], keys[c]);
    if ka.below(kb) {
        if kc.below(kb) {
            K::below_is_asymmetric(kc, kb);
        }
        K::below_is_transitive(ka, kb, kc);
    } else if kb.below(kc) {
        if !ka.below(kc) {
            // then `kc` is not above `ka`, which is not above `kb`
            if kc.below(ka) {
                K::below_is_transitive(kc, ka, kb);
                K::below_is_asymmetric(kb, kc);
            } else {
                K::below_is_transitive(kb, kc, ka);
            }
        }
    } else {
        if kc.below(ka) {
            K::below_is_transitive(kc, ka, kb);
        }
    }
}

/// Two stable orders of the same keys are equal.
pub proof fn stable_order_is_unique<K: SortKey>(keys: Seq<K>, x: Seq<usize>, y: Seq<usize>)
    requires
        all_valid(keys),
        is_stable_order(keys, x),
        is_stable_order(keys, y),
    ensures
        x == y,
{
    let n = keys.len() as int;
    lemma_order_is_onto(keys, x);
    lemma_order_is_onto(keys, y);
    assert forall|a: int| 0 <= a < n implies x[a] == y[a] by {
        lemma_same_place(keys, x, y, a);
    }
    assert(x =~= y);
}

proof fn lemma_not_before_itself<K: SortKey>(keys: Seq<K>, i: int, j: int)
    requires
        all_valid(keys),
        0 <= i < keys.len(),
        0 <= j < keys.len(),
    ensures
        !stands_before(keys, i, i),
        stands_before(keys, i, j) ==> !stands_before(keys, j, i),
{
    if keys[i].below(keys[i]) {
        K::below_is_asymmetric(keys[i], keys[i]);
    }
    if keys[i].below(keys[j]) {
        K::below_is_asymmetric(keys[i], keys[j]);
    }
}

/// Every index occurs in a stable order.
proof fn lemma_order_is_onto<K: SortKey>(keys: Seq<K>, order: Seq<usize>)
    requires
        all_valid(keys),
        is_stable_order(keys, order),
    ensures
        forall|i: int| 0 <= i < keys.len() ==> #[trigger] occurs(order, i),
{
    let n = keys.len() as int;
    let places = vstd::set_lib::set_int_range(0, n);
    let at = |a: int| order[a] as int;
    vstd::set_lib::lemma_int_range(0, n);
    assert forall|a: int, b: int|
        places.contains(a) && places.contains(b) && #[trigger] at(a) == #[trigger] at(b) implies a
        == b by {
        if a < b {
            lemma_not_before_itself(keys, order[a] as int, order[b] as int);
            assert(stands_before(keys, order[a] as int, order[b] as int));
        } else if b < a {
            lemma_not_before_itself(keys, order[b] as int, order[a] as int);
            assert(stands_before(keys, order[b] as int, order[a] as int));
        }
    }
    let image = places.map(at);
    vstd::set_lib::lemma_map_size(places, image, at);
    assert(image.subset_of(places)) by {
        assert forall|v: int| image.contains(v) implies places.contains(v) by {
            let a = choose|a: int| places.contains(a) && at(a) == v;
            assert(order[a] < keys.len());
        }
    }
    vstd::set_lib::lemma_subset_equality(image, places);
    assert forall|i: int| 0 <= i < n implies #[trigger] occurs(order, i) by {
        assert(image.contains(i));
        let a = choose|a: int| places.contains(a) && at(a) == i;
        assert(order[a] == i);
    }
}

proof fn lemma_same_place<K: SortKey>(keys: Seq<K>, x: Seq<usize>, y: Seq<usize>, a: int)
    requires
        all_valid(keys),
        is_stable_order(keys, x),
        is_stable_order(keys, y),
        forall|i: int| 0 <= i < keys.len() ==> #[trigger] occurs(x, i),
        forall|i: int| 0 <= i < keys.len() ==> #[trigger] occurs(y, i),
        0 <= a < keys.len(),
    ensures
        x[a] == y[a],
    decreases a,
{
    if x[a] != y[a] {
        // the earlier places agree, so each of the two stands before the other
        assert forall|k: int| 0 <= k < a implies x[k] == y[k] by {
            lemma_same_place(keys, x, y, k);
        }
        assert(occurs(y, x[a] as int) && occurs(x, y[a] as int));
        let b = choose|b: int| 0 <= b < y.len() && #[trigger] y[b] == x[a] as int;
        let c = choose|c: int| 0 <= c < x.len() && #[trigger] x[c] == y[a] as int;
        assert(b >= a) by {
            if b < a {
                assert(x[b] == y[b]);
                assert(stands_before(keys, x[b] as int, x[a] as int));
                lemma_not_before_itself(keys, x[a] as int, x[a] as int);
            }
        }
        assert(c >= a) by {
            if c < a {
                assert(x[c] == y[c]);
                assert(stands_before(keys, y[c] as int, y[a] as int));
                lemma_not_before_itself(keys, y[a] as int, y[a] as int);
            }
        }
        assert(stands_before(keys, y[a] as int, y[b] as int));
        assert(stands_before(keys, x[a] as int, x[c] as int));
        lemma_not_before_itself(keys, x[a] as int, y[a] as int);
    }
}

/// The indices of `keys` in their stable order.
pub fn stable_order<K: SortKey>(keys: &Vec<K>) -> (order: Vec<usize>)
    requires
        all_valid(keys@),
    ensures
        is_stable_order(keys@, order@),
        forall|i: int| 0 <= i < keys.len() ==> #[trigger] occurs(order@, i),
{
    let mut order: Vec<usize> = Vec::new();
    let mut i: usize = 0;
    while i < keys.len()
        invariant
            all_valid(keys@),
            i <= keys.len(),
            order.len() == i,
            forall|a: int| 0 <= a < order.len() ==> (#[trigger] order[a]) < i,
            forall|a: int, b: int|
                0 <= a < b < order.len() ==> stands_before(
                    keys@,
                    #[trigger] order[a] as int,
                    #[trigger] order[b] as int,
                ),
        decreases keys.len() - i,
    {
        let mut at: usize = i;
        while at > 0 && keys[i].is_below(&keys[order[at - 1]])
            invariant
                all_valid(keys@),
                i < keys.len(),
                at <= i,
                order.len() == i,
                forall|a: int| 0 <= a < order.len() ==> (#[trigger] order[a]) < i,
                forall|a: int|
                    at <= a < order.len() ==> keys[i as int].below(keys[#[trigger] order[a] as int]),
            decreases at,
        {
            at = at - 1;
        }
        let ghost before = order@;
        order.insert(at, i);
        proof {
            assert(order@ =~= before.take(at as int).push(i) + before.skip(at as int));
            assert forall|a: int, b: int| 0 <= a < b < order.len() implies stands_before(
                keys@,
                #[trigger] order[a] as int,
                #[trigger] order[b] as int,
            ) by {
                if b == at {
                    let e = before[at - 1] as int;
                    assert(stands_before(keys@, e, i as int));
                    if a < at - 1 {
                        assert(stands_before(keys@, before[a] as int, before[at - 1] as int));
                        lemma_before_is_transitive(keys@, before[a] as int, e, i as int);
                    }
                } else if a == at {
                    assert(order[b] == before[b - 1]);
                } else {
                    let pa = if a < at {
                        a
                    } else {
                        a - 1
                    };
                    let pb = if b < at {
                        b
                    } else {
                        b - 1
                    };
                    assert(order[a] == before[pa] && order[b] == before[pb]);
                }
            }
        }
        i = i + 1;
    }
    proof {
        lemma_order_is_onto(keys@, order@);
    }
    order
}

impl SortKey for i64 {
    open spec fn valid(self) -> bool {
        true
    }

    open spec fn below(self, other: i64) -> bool {
        self < other
    }

    proof fn below_is_asymmetric(a: i64, b: i64) {
    }

    proof fn below_is_transitive(a: i64, b: i64, c: i64) {
    }

    fn is_below(&self, other: &i64) -> (r: bool) {
        *self < *other
    }
}

/// A stable order lists every entry, lowest key first, and entries of equal keys as they came.
pub proof fn stable_orders_are_sorted<K: SortKey>(keys: Seq<K>, order: Seq<usize>)
    requires
        all_valid(keys),
        is_stable_order(keys, order),
    ensures
        forall|a: int, b: int|
            #![trigger order[a], order[b]]
            0 <= a < b < order.len() ==> {
                &&& !keys[order[b] as int].below(keys[order[a] as int])
                &&& !keys[order[a] as int].below(keys[order[b] as int]) ==> order[a] < order[b]
            },
        forall|i: int| 0 <= i < keys.len() ==> #[trigger] occurs(order, i),
{
    lemma_order_is_onto(keys, order);
    assert forall|a: int, b: int|
        #![trigger order[a], order[b]]
        0 <= a < b < order.len() implies {
        &&& !keys[order[b] as int].below(keys[order[a] as int])
        &&& !keys[order[a] as int].below(keys[order[b] as int]) ==> order[a] < order[b]
    } by {
        let (x, y) = (order[a] as int, order[b] as int);
        assert(stands_before(keys, x, y));
        if keys[y].below(keys[x]) {
            K::below_is_asymmetric(keys[y], keys[x]);
        }
    }
}

} // verus!
