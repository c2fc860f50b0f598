//! First-match search over sequences, the model of `Iterator::find` and
//! `Iterator::position`.

use vstd::prelude::*;

verus! {

/// The first index at or after `k` whose element satisfies `p`.
pub open spec fn first_where<T>(s: Seq<T>, p: spec_fn(T) -> bool, k: nat) -> Option<int>
    decreases s.len() - k,
{
    if k >= s.len() {
        None
    } else if p(s[k as int]) {
        Some(k as int)
    } else {
        first_where(s, p, k + 1)
    }
}

/// What `first_where` returns: a match at or after `k` with none before it.
pub proof fn lemma_first_where<T>(s: Seq<T>, p: spec_fn(T) -> bool, k: nat)
    ensures
        match first_where(s, p, k) {
            Some(i) => k <= i < s.len() && p(s[i]) && forall|j: int|
                k <= j < i ==> !p(#[trigger] s[j]),
            None => forall|j: int| k <= j < s.len() ==> !p(#[trigger] s[j]),
        },
    decreases s.len() - k,
{
    if k < s.len() && !p(s[k as int]) {
        lemma_first_where(s, p, k + 1);
    }
}

/// A match at `i` with no match before it is what `first_where` finds.
pub proof fn lemma_first_where_at<T>(s: Seq<T>, p: spec_fn(T) -> bool, i: int)
    requires
        0 <= i < s.len(),
        p(s[i]),
        forall|j: int| 0 <= j < i ==> !p(#[trigger] s[j]),
    ensures
        first_where(s, p, 0) == Some(i),
{
    lemma_first_where(s, p, 0);
    match first_where(s, p, 0) {
        Some(k) => {
            if k < i {
                assert(!p(s[k]));
            } else if k > i {
                assert(!p(s[i]));
            }
        },
        None => {
            assert(!p(s[i]));
        },
    }
}

/// No element satisfies `p`: `first_where` finds nothing.
pub proof fn lemma_first_where_none<T>(s: Seq<T>, p: spec_fn(T) -> bool)
    requires
        forall|j: int| 0 <= j < s.len() ==> !p(#[trigger] s[j]),
    ensures
        first_where(s, p, 0) is None,
{
    lemma_first_where(s, p, 0);
    if let Some(k) = first_where(s, p, 0) {
        assert(!p(s[k]));
    }
}

/// Every element of `q` comes before each later one by `lt`.
pub open spec fn ordered_by<T>(q: Seq<T>, lt: spec_fn(T, T) -> bool) -> bool {
    forall|i: int, j: int| 0 <= i < j < q.len() ==> lt(#[trigger] q[i], #[trigger] q[j])
}

/// `lt` is a strict order: irreflexive and asymmetric.
pub open spec fn strict_order<T>(lt: spec_fn(T, T) -> bool) -> bool {
    &&& forall|x: T| !#[trigger] lt(x, x)
    &&& forall|x: T, y: T| #[trigger] lt(x, y) ==> !lt(y, x)
}

/// The elements of `s` listed in the order `lt`, as a sorted set is walked.
pub open spec fn in_order<T>(s: Set<T>, lt: spec_fn(T, T) -> bool) -> Seq<T> {
    choose|q: Seq<T>| ordered_by(q, lt) && q.to_set() == s
}

/// Two lists in the same strict order with the same elements are equal.
pub proof fn lemma_ordered_unique<T>(a: Seq<T>, b: Seq<T>, lt: spec_fn(T, T) -> bool)
    requires
        strict_order(lt),
        ordered_by(a, lt),
        ordered_by(b, lt),
        a.to_set() == b.to_set(),
    ensures
        a == b,
    decreases a.len(),
{
    if a.len() == 0 {
        if b.len() > 0 {
            assert(b.to_set().contains(b[0]));
            assert(a.to_set().contains(b[0]));
        }
        assert(a =~= b);
    } else {
        assert(a.to_set().contains(a[0]));
        assert(b.contains(a[0]));
        let k = choose|k: int| 0 <= k < b.len() && b[k] == a[0];
        assert(b.to_set().contains(b[0]));
        assert(a.contains(b[0]));
        let m = choose|m: int| 0 <= m < a.len() && a[m] == b[0];
        if k > 0 {
            assert(lt(b[0], b[k]));
            if m > 0 {
                assert(lt(a[0], a[m]));
            }
        }
        assert(b[0] == a[0]);
        let a1 = a.drop_first();
        let b1 = b.drop_first();
        assert forall|x: T| a1.contains(x) implies b1.contains(x) by {
            let i = choose|i: int| 0 <= i < a1.len() && a1[i] == x;
            assert(a[i + 1] == x);
            assert(lt(a[0], a[i + 1]));
            assert(a.to_set().contains(x));
            assert(b.contains(x));
            let j = choose|j: int| 0 <= j < b.len() && b[j] == x;
            assert(j != 0);
            assert(b1[j - 1] == x);
        }
        assert forall|x: T| b1.contains(x) implies a1.contains(x) by {
            let i = choose|i: int| 0 <= i < b1.len() && b1[i] == x;
            assert(b[i + 1] == x);
            assert(lt(b[0], b[i + 1]));
            assert(b.to_set().contains(x));
            assert(a.contains(x));
            let j = choose|j: int| 0 <= j < a.len() && a[j] == x;
            assert(j != 0);
            assert(a1[j - 1] == x);
        }
        assert(a1.to_set() =~= b1.to_set());
        assert forall|i: int, j: int| 0 <= i < j < a1.len() implies lt(#[trigger] a1[i], #[trigger] a1[j]) by {
            assert(lt(a[i + 1], a[j + 1]));
        }
        assert forall|i: int, j: int| 0 <= i < j < b1.len() implies lt(#[trigger] b1[i], #[trigger] b1[j]) by {
            assert(lt(b[i + 1], b[j + 1]));
        }
        lemma_ordered_unique(a1, b1, lt);
        assert(a =~= b) by {
            assert forall|i: int| 0 <= i < a.len() implies a[i] == b[i] by {
                if i > 0 {
                    assert(a[i] == a1[i - 1]);
                    assert(b[i] == b1[i - 1]);
                }
            }
        }
    }
}

/// A list in strict order with the elements of `s` is `s` listed in that order.
pub proof fn lemma_in_order<T>(q: Seq<T>, s: Set<T>, lt: spec_fn(T, T) -> bool)
    requires
        strict_order(lt),
        ordered_by(q, lt),
        q.to_set() == s,
    ensures
        in_order(s, lt) == q,
{
    let c = in_order(s, lt);
    assert(ordered_by(c, lt) && c.to_set() == s);
    lemma_ordered_unique(c, q, lt);
}

} // verus!
