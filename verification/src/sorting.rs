//! Sorting by an ordered key.

use vstd::prelude::*;
use vstd::relations::{sorted_by, total_ordering};
use vstd::seq_lib::{lemma_multiset_commutative, lemma_sorted_unique};

use crate::ordered_map::OrderedKey;

verus! {

/// Whether `a` may stand before `b` in ascending or else in descending order.
spec fn fits<K: OrderedKey>(ascending: bool, a: K::V, b: K::V) -> bool {
    if ascending {
        !K::less(b, a)
    } else {
        !K::less(a, b)
    }
}

spec fn ordered<K: OrderedKey>(ascending: bool, s: Seq<K::V>) -> bool {
    forall|i: int, j: int| 0 <= i < j < s.len() ==> fits::<K>(ascending, #[trigger] s[i], #[trigger] s[j])
}

/// Whether no item of a row stands before an earlier one.
pub open spec fn is_sorted<K: OrderedKey>(s: Seq<K::V>) -> bool {
    forall|i: int, j: int| 0 <= i < j < s.len() ==> !K::less(#[trigger] s[j], #[trigger] s[i])
}

proof fn lemma_fits_transitive<K: OrderedKey>(ascending: bool, a: K::V, b: K::V, c: K::V)
    requires
        fits::<K>(ascending, a, b),
        fits::<K>(ascending, b, c),
    ensures
        fits::<K>(ascending, a, c),
{
    K::less_total(a, b);
    K::less_total(b, c);
    K::less_irreflexive(a);
    K::less_irreflexive(c);
    if K::less(a, b) && K::less(b, c) {
        K::less_transitive(a, b, c);
    }
    if K::less(c, b) && K::less(b, a) {
        K::less_transitive(c, b, a);
    }
    if K::less(a, c) && K::less(c, a) {
        K::less_transitive(a, c, a);
    }
}

proof fn lemma_fits_total<K: OrderedKey>(ascending: bool, a: K::V, b: K::V)
    ensures
        fits::<K>(ascending, a, b) || fits::<K>(ascending, b, a),
{
    K::less_irreflexive(a);
    if K::less(a, b) && K::less(b, a) {
        K::less_transitive(a, b, a);
    }
}

/// Adds the last item of `from` to `out`.
fn move_last<K: OrderedKey>(
    ascending: bool,
    out: &mut Vec<K>,
    from: &mut Vec<K>,
    Ghost(other): Ghost<Seq<K::V>>,
)
    requires
        old(from)@.len() > 0,
        ordered::<K>(ascending, old(out).deep_view()),
        ordered::<K>(!ascending, old(from).deep_view()),
        forall|i: int, j: int|
            0 <= i < old(out)@.len() && 0 <= j < old(from)@.len() ==> fits::<K>(
                ascending,
                #[trigger] old(out).deep_view()[i],
                #[trigger] old(from).deep_view()[j],
            ),
        forall|i: int, j: int|
            0 <= i < old(out)@.len() && 0 <= j < other.len() ==> fits::<K>(
                ascending,
                #[trigger] old(out).deep_view()[i],
                #[trigger] other[j],
            ),
        forall|j: int|
            0 <= j < other.len() ==> fits::<K>(
                ascending,
                old(from).deep_view().last(),
                #[trigger] other[j],
            ),
    ensures
        final(from)@.len() == old(from)@.len() - 1,
        final(from).deep_view() == old(from).deep_view().drop_last(),
        final(out).deep_view() == old(out).deep_view().push(old(from).deep_view().last()),
        ordered::<K>(ascending, final(out).deep_view()),
        ordered::<K>(!ascending, final(from).deep_view()),
        forall|i: int, j: int|
            0 <= i < final(out)@.len() && 0 <= j < final(from)@.len() ==> fits::<K>(
                ascending,
                #[trigger] final(out).deep_view()[i],
                #[trigger] final(from).deep_view()[j],
            ),
        forall|i: int, j: int|
            0 <= i < final(out)@.len() && 0 <= j < other.len() ==> fits::<K>(
                ascending,
                #[trigger] final(out).deep_view()[i],
                #[trigger] other[j],
            ),
        final(out).deep_view().to_multiset().add(final(from).deep_view().to_multiset()) == old(
            out,
        ).deep_view().to_multiset().add(old(from).deep_view().to_multiset()),
{
    broadcast use vstd::seq_lib::group_to_multiset_ensures;

    let ghost o = out.deep_view();
    let ghost f = from.deep_view();
    if let Some(item) = from.pop() {
        out.push(item);
    }
    proof {
        assert(from.deep_view() =~= f.drop_last());
        assert(out.deep_view() =~= o.push(f.last()));
        assert(f =~= f.drop_last().push(f.last()));
        let n = f.len() - 1;
        assert forall|j: int| 0 <= j < n implies fits::<K>(ascending, f.last(), #[trigger] f[j]) by {
            assert(fits::<K>(!ascending, f[j], f[n]));
        }
        assert(forall|j: int| 0 <= j < n ==> #[trigger] from.deep_view()[j] == f[j]);
        assert(out.deep_view().to_multiset().add(from.deep_view().to_multiset())
            =~= o.to_multiset().add(f.to_multiset()));
    }
}

/// Two rows in descending order as one in ascending order, or the other way round.
fn merge_rows<K: OrderedKey>(ascending: bool, a: Vec<K>, b: Vec<K>) -> (r: Vec<K>)
    requires
        ordered::<K>(!ascending, a.deep_view()),
        ordered::<K>(!ascending, b.deep_view()),
    ensures
        ordered::<K>(ascending, r.deep_view()),
        r.deep_view().to_multiset() == a.deep_view().to_multiset().add(b.deep_view().to_multiset()),
{
    broadcast use vstd::seq_lib::group_to_multiset_ensures;

    let ghost all = a.deep_view().to_multiset().add(b.deep_view().to_multiset());
    let mut a = a;
    let mut b = b;
    let mut out: Vec<K> = Vec::new();
    assert(out.deep_view() =~= seq![]);
    assert(out.deep_view().to_multiset().add(a.deep_view().to_multiset()).add(
        b.deep_view().to_multiset(),
    ) =~= all);
    while a.len() > 0 || b.len() > 0
        invariant
            ordered::<K>(!ascending, a.deep_view()),
            ordered::<K>(!ascending, b.deep_view()),
            ordered::<K>(ascending, out.deep_view()),
            forall|i: int, j: int|
                0 <= i < out@.len() && 0 <= j < a@.len() ==> fits::<K>(
                    ascending,
                    #[trigger] out.deep_view()[i],
                    #[trigger] a.deep_view()[j],
                ),
            forall|i: int, j: int|
                0 <= i < out@.len() && 0 <= j < b@.len() ==> fits::<K>(
                    ascending,
                    #[trigger] out.deep_view()[i],
                    #[trigger] b.deep_view()[j],
                ),
            out.deep_view().to_multiset().add(a.deep_view().to_multiset()).add(
                b.deep_view().to_multiset(),
            ) == all,
        decreases a@.len() + b@.len(),
    {
        let ghost x = a.deep_view();
        let ghost y = b.deep_view();
        let ghost o = out.deep_view();
        let take_first: bool = if a.len() == 0 {
            false
        } else if b.len() == 0 {
            true
        } else if ascending {
            !b[b.len() - 1].before(&a[a.len() - 1])
        } else {
            !a[a.len() - 1].before(&b[b.len() - 1])
        };
        proof {
            if x.len() > 0 && y.len() > 0 {
                lemma_fits_total::<K>(ascending, x.last(), y.last());
                assert forall|j: int| 0 <= j < y.len() && take_first implies fits::<K>(
                    ascending,
                    x.last(),
                    #[trigger] y[j],
                ) by {
                    if j < y.len() - 1 {
                        assert(fits::<K>(!ascending, y[j], y[y.len() - 1]));
                        lemma_fits_transitive::<K>(ascending, x.last(), y.last(), y[j]);
                    }
                }
                assert forall|j: int| 0 <= j < x.len() && !take_first implies fits::<K>(
                    ascending,
                    y.last(),
                    #[trigger] x[j],
                ) by {
                    if j < x.len() - 1 {
                        assert(fits::<K>(!ascending, x[j], x[x.len() - 1]));
                        lemma_fits_transitive::<K>(ascending, y.last(), x.last(), x[j]);
                    }
                }
            }
        }
        if take_first {
            move_last(ascending, &mut out, &mut a, Ghost(y));
        } else {
            move_last(ascending, &mut out, &mut b, Ghost(x));
            proof {
                assert(out.deep_view().to_multiset().add(x.to_multiset()).add(
                    b.deep_view().to_multiset(),
                ) =~= out.deep_view().to_multiset().add(b.deep_view().to_multiset()).add(
                    x.to_multiset(),
                ));
                assert(o.to_multiset().add(x.to_multiset()).add(y.to_multiset())
                    =~= o.to_multiset().add(y.to_multiset()).add(x.to_multiset()));
            }
        }
    }
    proof {
        assert(a.deep_view() =~= seq![]);
        assert(b.deep_view() =~= seq![]);
        assert(out.deep_view().to_multiset().add(a.deep_view().to_multiset()).add(
            b.deep_view().to_multiset(),
        ) =~= out.deep_view().to_multiset());
    }
    out
}

fn sort_rows<K: OrderedKey>(ascending: bool, v: Vec<K>) -> (r: Vec<K>)
    ensures
        ordered::<K>(ascending, r.deep_view()),
        r.deep_view().to_multiset() == v.deep_view().to_multiset(),
    decreases v@.len(),
{
    let total: usize = v.len();
    if total < 2 {
        return v;
    }
    let ghost all = v.deep_view();
    let mut first = v;
    let half: usize = total / 2;
    let second = first.split_off(half);
    proof {
        assert(first.deep_view() =~= all.take(half as int));
        assert(second.deep_view() =~= all.skip(half as int));
        assert(first.deep_view() + second.deep_view() =~= all);
        lemma_multiset_commutative(first.deep_view(), second.deep_view());
    }
    merge_rows(ascending, sort_rows(!ascending, first), sort_rows(!ascending, second))
}

/// The items in ascending order.
pub fn sorted<K: OrderedKey>(v: Vec<K>) -> (r: Vec<K>)
    ensures
        is_sorted::<K>(r.deep_view()),
        r.deep_view().to_multiset() == v.deep_view().to_multiset(),
{
    let r = sort_rows(true, v);
    proof {
        let s = r.deep_view();
        assert forall|i: int, j: int| 0 <= i < j < s.len() implies !K::less(
            #[trigger] s[j],
            #[trigger] s[i],
        ) by {
            assert(fits::<K>(true, s[i], s[j]));
        }
    }
    r
}

/// The order in which items are given does not matter: there is one sorted row of them.
pub proof fn law_sorted_row_is_unique<K: OrderedKey>(a: Seq<K::V>, b: Seq<K::V>)
    requires
        is_sorted::<K>(a),
        is_sorted::<K>(b),
        a.to_multiset() == b.to_multiset(),
    ensures
        a == b,
{
    let leq = |x: K::V, y: K::V| fits::<K>(true, x, y);
    assert forall|x: K::V| #[trigger] leq(x, x) by {
        K::less_irreflexive(x);
    }
    assert forall|x: K::V, y: K::V| #[trigger] leq(x, y) && #[trigger] leq(y, x) implies x == y by {
        K::less_total(x, y);
    }
    assert forall|x: K::V, y: K::V, z: K::V| #[trigger]
        leq(x, y) && #[trigger] leq(y, z) implies leq(x, z) by {
        lemma_fits_transitive::<K>(true, x, y, z);
    }
    assert forall|x: K::V, y: K::V| #[trigger] leq(x, y) || #[trigger] leq(y, x) by {
        lemma_fits_total::<K>(true, x, y);
    }
    assert(total_ordering(leq));
    assert(sorted_by(a, leq));
    assert(sorted_by(b, leq));
    lemma_sorted_unique(a, b, leq);
}

} // verus!
