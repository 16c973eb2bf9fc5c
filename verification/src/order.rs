//! Stable ordering by an integer key.
use vstd::prelude::*;

verus! {

/// `x` put into `s` behind every element whose key is at most that of `x`,
/// looking from the end.
pub open spec fn placed<T>(s: Seq<T>, x: T, key: spec_fn(T) -> int) -> Seq<T>
    decreases s.len(),
{
    if s.len() == 0 || key(s.last()) <= key(x) {
        s.push(x)
    } else {
        placed(s.drop_last(), x, key).push(s.last())
    }
}

/// The elements of `s` by rising key; elements with equal keys stay in the
/// order in which they stood.
pub open spec fn ordered<T>(s: Seq<T>, key: spec_fn(T) -> int) -> Seq<T>
    decreases s.len(),
{
    if s.len() == 0 {
        s
    } else {
        placed(ordered(s.drop_last(), key), s.last(), key)
    }
}

/// Whether the keys never fall along `s`.
pub open spec fn rising<T>(s: Seq<T>, key: spec_fn(T) -> int) -> bool {
    forall|i: int, j: int| 0 <= i <= j < s.len() ==> key(#[trigger] s[i]) <= key(#[trigger] s[j])
}

/// Where the elements behind index `p` have larger keys and those before it do
/// not, `x` goes in at `p`.
pub proof fn lemma_placed_at<T>(s: Seq<T>, x: T, key: spec_fn(T) -> int, p: int)
    requires
        0 <= p <= s.len(),
        forall|i: int| p <= i < s.len() ==> key(#[trigger] s[i]) > key(x),
        p > 0 ==> key(s[p - 1]) <= key(x),
    ensures
        placed(s, x, key) == s.insert(p, x),
    decreases s.len(),
{
    if s.len() > 0 && key(s.last()) > key(x) {
        assert(p < s.len());
        lemma_placed_at(s.drop_last(), x, key, p);
        assert(s.insert(p, x) =~= s.drop_last().insert(p, x).push(s.last()));
    } else {
        assert(p == s.len()) by {
            if p < s.len() {
                assert(key(s[s.len() - 1]) > key(x));
            }
        }
        assert(s.insert(p, x) =~= s.push(x));
    }
}

proof fn lemma_placed<T>(s: Seq<T>, x: T, key: spec_fn(T) -> int)
    requires
        rising(s, key),
    ensures
        rising(placed(s, x, key), key),
        placed(s, x, key).len() == s.len() + 1,
        placed(s, x, key).to_multiset() == s.to_multiset().insert(x),
        forall|i: int|
            0 <= i < placed(s, x, key).len() ==> s.contains(#[trigger] placed(s, x, key)[i])
                || placed(s, x, key)[i] == x,
    decreases s.len(),
{
    broadcast use vstd::seq_lib::group_to_multiset_ensures;

    let r = placed(s, x, key);
    if s.len() == 0 || key(s.last()) <= key(x) {
        assert forall|i: int| 0 <= i < r.len() implies s.contains(#[trigger] r[i]) || r[i] == x by {
            if i < s.len() {
                assert(s[i] == r[i]);
            }
        }
        assert forall|i: int, j: int| 0 <= i <= j < r.len() implies key(#[trigger] r[i]) <= key(
            #[trigger] r[j],
        ) by {
            if j == s.len() && i < s.len() {
                assert(key(s[i]) <= key(s[s.len() - 1]));
            }
        }
    } else {
        let head = s.drop_last();
        assert forall|i: int, j: int| 0 <= i <= j < head.len() implies key(#[trigger] head[i])
            <= key(#[trigger] head[j]) by {
            assert(key(s[i]) <= key(s[j]));
        }
        lemma_placed(head, x, key);
        let h = placed(head, x, key);
        assert forall|i: int| 0 <= i < h.len() implies key(#[trigger] h[i]) <= key(s.last()) by {
            if h[i] != x {
                let k = choose|k: int| 0 <= k < head.len() && head[k] == h[i];
                assert(key(s[k]) <= key(s[s.len() - 1]));
            }
        }
        assert forall|i: int| 0 <= i < r.len() implies s.contains(#[trigger] r[i]) || r[i] == x by {
            if i < h.len() {
                if h[i] != x {
                    let k = choose|k: int| 0 <= k < head.len() && head[k] == h[i];
                    assert(s[k] == r[i]);
                }
            } else {
                assert(s[s.len() - 1] == r[i]);
            }
        }
        assert(s == head.push(s.last()));
        assert(s.to_multiset() =~= head.to_multiset().insert(s.last()));
        assert(r.to_multiset() =~= h.to_multiset().insert(s.last()));
        assert(r.to_multiset() =~= s.to_multiset().insert(x));
    }
}

/// Ordering keeps every element, as often as it occurs, and leaves the keys
/// rising.
pub proof fn law_ordered<T>(s: Seq<T>, key: spec_fn(T) -> int)
    ensures
        rising(ordered(s, key), key),
        ordered(s, key).len() == s.len(),
        ordered(s, key).to_multiset() == s.to_multiset(),
    decreases s.len(),
{
    broadcast use vstd::seq_lib::group_to_multiset_ensures;

    if s.len() > 0 {
        law_ordered(s.drop_last(), key);
        lemma_placed(ordered(s.drop_last(), key), s.last(), key);
        assert(s == s.drop_last().push(s.last()));
    }
}

/// An element of a sequence is in every sequence with the same elements.
pub proof fn lemma_same_elements<T>(s: Seq<T>, t: Seq<T>, k: int)
    requires
        s.to_multiset() == t.to_multiset(),
        0 <= k < s.len(),
    ensures
        t.contains(s[k]),
{
    broadcast use vstd::seq_lib::group_to_multiset_ensures;

    assert(s.contains(s[k]));
    assert(s.to_multiset().count(s[k]) > 0);
}

/// The elements of `s` with the given key, in the order in which they stand.
pub open spec fn with_key<T>(s: Seq<T>, key: spec_fn(T) -> int, k: int) -> Seq<T>
    decreases s.len(),
{
    if s.len() == 0 {
        s
    } else if key(s.last()) == k {
        with_key(s.drop_last(), key, k).push(s.last())
    } else {
        with_key(s.drop_last(), key, k)
    }
}

proof fn lemma_placed_with_key<T>(s: Seq<T>, x: T, key: spec_fn(T) -> int, k: int)
    requires
        rising(s, key),
    ensures
        with_key(placed(s, x, key), key, k) == with_key(s.push(x), key, k),
    decreases s.len(),
{
    if s.len() > 0 && key(s.last()) > key(x) {
        let head = s.drop_last();
        assert forall|i: int, j: int| 0 <= i <= j < head.len() implies key(#[trigger] head[i])
            <= key(#[trigger] head[j]) by {
            assert(key(s[i]) <= key(s[j]));
        }
        lemma_placed_with_key(head, x, key, k);
        let r = placed(s, x, key);
        assert(r == placed(head, x, key).push(s.last()));
        assert(r.drop_last() =~= placed(head, x, key));
        assert(s.push(x).drop_last() =~= s);
        assert(head.push(x).drop_last() =~= head);
        reveal_with_fuel(with_key, 3);
    }
}

/// Ordering is stable: elements with equal keys keep their order.
pub proof fn law_ordered_stable<T>(s: Seq<T>, key: spec_fn(T) -> int, k: int)
    ensures
        with_key(ordered(s, key), key, k) == with_key(s, key, k),
    decreases s.len(),
{
    if s.len() > 0 {
        let head = s.drop_last();
        law_ordered(head, key);
        law_ordered_stable(head, key, k);
        lemma_placed_with_key(ordered(head, key), s.last(), key, k);
        assert(ordered(head, key).push(s.last()).drop_last() == ordered(head, key));
    }
}

} // verus!
