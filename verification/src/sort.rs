use vstd::prelude::*;

verus! {

/// `x` put into `t` after every element that `le` places at or before it.
pub open spec fn insert_sorted<T>(t: Seq<T>, x: T, le: spec_fn(T, T) -> bool) -> Seq<T>
    decreases t.len(),
{
    if t.len() == 0 || le(t.last(), x) {
        t.push(x)
    } else {
        insert_sorted(t.drop_last(), x, le).push(t.last())
    }
}

/// The stable sort of `s` by `le` (`le(a, b)`: `a` may stay before `b`):
/// each element in turn is inserted after all earlier ones that may stay
/// before it, as a stable sort with a total order places them.
pub open spec fn sort_spec<T>(s: Seq<T>, le: spec_fn(T, T) -> bool) -> Seq<T>
    decreases s.len(),
{
    if s.len() == 0 {
        s
    } else {
        insert_sorted(sort_spec(s.drop_last(), le), s.last(), le)
    }
}

/// `le` orders every pair and chains.
pub open spec fn total_preorder<T>(le: spec_fn(T, T) -> bool) -> bool {
    &&& forall|a: T, b: T| #[trigger] le(a, b) || le(b, a)
    &&& forall|a: T, b: T, c: T| #[trigger] le(a, b) && #[trigger] le(b, c) ==> le(a, c)
}

/// Every element may stay before every later one.
pub open spec fn sorted_by<T>(s: Seq<T>, le: spec_fn(T, T) -> bool) -> bool {
    forall|i: int, j: int| 0 <= i < j < s.len() ==> le(#[trigger] s[i], #[trigger] s[j])
}

/// Inserting after the last element that may stay before `x` is the
/// insertion step of the sort.
pub proof fn lemma_insert_at<T>(t: Seq<T>, x: T, le: spec_fn(T, T) -> bool, j: int)
    requires
        0 <= j <= t.len(),
        j == 0 || le(t[j - 1], x),
        forall|k: int| j <= k < t.len() ==> !le(#[trigger] t[k], x),
    ensures
        insert_sorted(t, x, le) == t.insert(j, x),
    decreases t.len() - j,
{
    if j == t.len() {
        assert(t.insert(j, x) =~= t.push(x));
    } else {
        let t0 = t.drop_last();
        assert(!le(t[t.len() - 1], x));
        lemma_insert_at(t0, x, le, j);
        assert(t0.insert(j, x).push(t.last()) =~= t.insert(j, x));
    }
}

/// Stable sort of a vector of copyable values by `le`.
pub fn sort_by<T: Copy, F: Fn(T, T) -> bool>(v: &Vec<T>, le: F, Ghost(spec_le): Ghost<spec_fn(T, T) -> bool>) -> (r: Vec<T>)
    requires
        forall|a: T, b: T| #[trigger] le.requires((a, b)),
        forall|a: T, b: T, res: bool| #[trigger] le.ensures((a, b), res) ==> res == spec_le(a, b),
    ensures
        r@ == sort_spec(v@, spec_le),
{
    let mut r: Vec<T> = Vec::new();
    let mut i: usize = 0;
    assert(v@.take(0) =~= Seq::<T>::empty());
    while i < v.len()
        invariant
            i <= v.len(),
            forall|a: T, b: T| #[trigger] le.requires((a, b)),
            forall|a: T, b: T, res: bool| #[trigger] le.ensures((a, b), res) ==> res == spec_le(a, b),
            r@ == sort_spec(v@.take(i as int), spec_le),
        decreases v.len() - i,
    {
        let x = v[i];
        let mut j = r.len();
        while j > 0 && !le(r[j - 1], x)
            invariant
                j <= r.len(),
                forall|a: T, b: T| #[trigger] le.requires((a, b)),
                forall|a: T, b: T, res: bool| #[trigger] le.ensures((a, b), res) ==> res == spec_le(a, b),
                forall|k: int| j <= k < r.len() ==> !spec_le(#[trigger] r@[k], x),
            decreases j,
        {
            j = j - 1;
        }
        proof {
            lemma_insert_at(r@, x, spec_le, j as int);
            assert(v@.take(i + 1).drop_last() =~= v@.take(i as int));
        }
        r.insert(j, x);
        i = i + 1;
    }
    assert(v@.take(v.len() as int) =~= v@);
    r
}

pub proof fn lemma_insert_sorted_multiset<T>(t: Seq<T>, x: T, le: spec_fn(T, T) -> bool)
    ensures
        insert_sorted(t, x, le).to_multiset() == t.to_multiset().insert(x),
    decreases t.len(),
{
    broadcast use vstd::seq_lib::group_to_multiset_ensures;
    if t.len() == 0 || le(t.last(), x) {
    } else {
        lemma_insert_sorted_multiset(t.drop_last(), x, le);
        assert(t =~= t.drop_last().push(t.last()));
    }
}

/// Sorting keeps every element, as many times as it occurs.
pub proof fn lemma_sort_multiset<T>(s: Seq<T>, le: spec_fn(T, T) -> bool)
    ensures
        sort_spec(s, le).to_multiset() == s.to_multiset(),
        sort_spec(s, le).len() == s.len(),
    decreases s.len(),
{
    broadcast use vstd::seq_lib::group_to_multiset_ensures;
    if s.len() > 0 {
        lemma_sort_multiset(s.drop_last(), le);
        lemma_insert_sorted_multiset(sort_spec(s.drop_last(), le), s.last(), le);
        assert(s =~= s.drop_last().push(s.last()));
        assert(sort_spec(s, le).to_multiset().len() == s.to_multiset().len());
    }
}

proof fn lemma_insert_sorted_sorted<T>(t: Seq<T>, x: T, le: spec_fn(T, T) -> bool)
    requires
        total_preorder(le),
        sorted_by(t, le),
    ensures
        sorted_by(insert_sorted(t, x, le), le),
        forall|k: int| 0 <= k < insert_sorted(t, x, le).len() ==> #[trigger] insert_sorted(t, x, le)[k] == x || t.contains(insert_sorted(t, x, le)[k]),
        insert_sorted(t, x, le).len() == t.len() + 1,
    decreases t.len(),
{
    let r = insert_sorted(t, x, le);
    if t.len() == 0 || le(t.last(), x) {
        assert forall|i: int, j: int| 0 <= i < j < r.len() implies le(#[trigger] r[i], #[trigger] r[j]) by {
            if j == t.len() && i < t.len() - 1 {
                assert(le(t[i], t[t.len() - 1]));
            }
        }
        assert forall|k: int| 0 <= k < r.len() implies #[trigger] r[k] == x || t.contains(r[k]) by {
            if k < t.len() {
                assert(r[k] == t[k]);
            }
        }
    } else {
        let t0 = t.drop_last();
        assert(sorted_by(t0, le)) by {
            assert forall|i: int, j: int| 0 <= i < j < t0.len() implies le(#[trigger] t0[i], #[trigger] t0[j]) by {
                assert(t0[i] == t[i] && t0[j] == t[j]);
            }
        }
        lemma_insert_sorted_sorted(t0, x, le);
        let r0 = insert_sorted(t0, x, le);
        assert(le(x, t.last()));
        assert forall|i: int, j: int| 0 <= i < j < r.len() implies le(#[trigger] r[i], #[trigger] r[j]) by {
            if j == r.len() - 1 {
                assert(r[j] == t.last());
                assert(r[i] == r0[i]);
                if r0[i] != x {
                    assert(t0.contains(r0[i]));
                    let q = choose|q: int| 0 <= q < t0.len() && t0[q] == r0[i];
                    assert(t[q] == t0[q]);
                    assert(le(t[q], t[t.len() - 1]));
                }
            } else {
                assert(r[i] == r0[i] && r[j] == r0[j]);
            }
        }
        assert forall|k: int| 0 <= k < r.len() implies #[trigger] r[k] == x || t.contains(r[k]) by {
            if k == r.len() - 1 {
                assert(t[t.len() - 1] == r[k]);
            } else {
                assert(r[k] == r0[k]);
                if r0[k] != x {
                    let q = choose|q: int| 0 <= q < t0.len() && t0[q] == r0[k];
                    assert(t[q] == t0[q]);
                }
            }
        }
    }
}

/// With a total preorder, the sort is ordered.
pub proof fn lemma_sort_sorted<T>(s: Seq<T>, le: spec_fn(T, T) -> bool)
    requires
        total_preorder(le),
    ensures
        sorted_by(sort_spec(s, le), le),
    decreases s.len(),
{
    if s.len() > 0 {
        lemma_sort_sorted(s.drop_last(), le);
        lemma_insert_sorted_sorted(sort_spec(s.drop_last(), le), s.last(), le);
    }
}

/// Three-way comparison of integers: -1, 0 or 1.
pub open spec fn order_int(a: int, b: int) -> int {
    if a < b {
        -1
    } else if a == b {
        0
    } else {
        1
    }
}

/// The first comparison unless it ties.
pub open spec fn then_order(c1: int, c2: int) -> int {
    if c1 != 0 {
        c1
    } else {
        c2
    }
}

} // verus!
