use vstd::prelude::*;

use vstd::multiset::Multiset;

use crate::item::{density_ge, lemma_density_total, lemma_density_transitive, same_density, Item};

verus! {

broadcast use vstd::seq_lib::group_seq_properties;

/// Every item of `s` is at least as dense as each item after it.
pub open spec fn descending(s: Seq<Item>) -> bool {
    forall|i: int, j: int| 0 <= i < j < s.len() ==> density_ge(s[i], s[j])
}

/// The items of `s` that are exactly as dense as `x`, in the order of `s`.
pub open spec fn density_class(s: Seq<Item>, x: Item) -> Seq<Item> {
    s.filter(|e: Item| same_density(e, x))
}

/// Two descending runs merged into one; on equal density the item of `a` goes first.
spec fn merge_by_density(a: Seq<Item>, b: Seq<Item>) -> Seq<Item>
    decreases a.len() + b.len(),
{
    if a.len() == 0 {
        b
    } else if b.len() == 0 {
        a
    } else if density_ge(a[0], b[0]) {
        seq![a[0]] + merge_by_density(a.drop_first(), b)
    } else {
        seq![b[0]] + merge_by_density(a, b.drop_first())
    }
}

proof fn lemma_merge_bounded(a: Seq<Item>, b: Seq<Item>, y: Item)
    requires
        forall|i: int| 0 <= i < a.len() ==> density_ge(y, #[trigger] a[i]),
        forall|j: int| 0 <= j < b.len() ==> density_ge(y, #[trigger] b[j]),
    ensures
        forall|k: int|
            0 <= k < merge_by_density(a, b).len() ==> density_ge(
                y,
                #[trigger] merge_by_density(a, b)[k],
            ),
        merge_by_density(a, b).len() == a.len() + b.len(),
    decreases a.len() + b.len(),
{
    if a.len() > 0 && b.len() > 0 {
        if density_ge(a[0], b[0]) {
            lemma_merge_bounded(a.drop_first(), b, y);
            let m = merge_by_density(a, b);
            assert forall|k: int| 0 <= k < m.len() implies density_ge(y, #[trigger] m[k]) by {
                if k > 0 {
                    assert(m[k] == merge_by_density(a.drop_first(), b)[k - 1]);
                }
            }
        } else {
            lemma_merge_bounded(a, b.drop_first(), y);
            let m = merge_by_density(a, b);
            assert forall|k: int| 0 <= k < m.len() implies density_ge(y, #[trigger] m[k]) by {
                if k > 0 {
                    assert(m[k] == merge_by_density(a, b.drop_first())[k - 1]);
                }
            }
        }
    }
}

proof fn lemma_merge_descending(a: Seq<Item>, b: Seq<Item>)
    requires
        descending(a),
        descending(b),
    ensures
        descending(merge_by_density(a, b)),
        merge_by_density(a, b).to_multiset() == a.to_multiset().add(b.to_multiset()),
    decreases a.len() + b.len(),
{
    broadcast use vstd::seq_lib::lemma_multiset_commutative;

    if a.len() > 0 && b.len() > 0 {
        assert(a =~= seq![a[0]] + a.drop_first());
        assert(b =~= seq![b[0]] + b.drop_first());
        let m = merge_by_density(a, b);
        if density_ge(a[0], b[0]) {
            let rest = merge_by_density(a.drop_first(), b);
            lemma_merge_descending(a.drop_first(), b);
            assert forall|j: int| 0 <= j < b.len() implies density_ge(a[0], #[trigger] b[j]) by {
                if j > 0 {
                    lemma_density_transitive(a[0], b[0], b[j]);
                }
            }
            lemma_merge_bounded(a.drop_first(), b, a[0]);
            assert forall|i: int, j: int| 0 <= i < j < m.len() implies density_ge(m[i], m[j]) by {
                assert(m[j] == rest[j - 1]);
                if i > 0 {
                    assert(m[i] == rest[i - 1]);
                }
            }
        } else {
            let rest = merge_by_density(a, b.drop_first());
            lemma_merge_descending(a, b.drop_first());
            lemma_density_total(a[0], b[0]);
            assert forall|i: int| 0 <= i < a.len() implies density_ge(b[0], #[trigger] a[i]) by {
                if i > 0 {
                    lemma_density_transitive(b[0], a[0], a[i]);
                }
            }
            lemma_merge_bounded(a, b.drop_first(), b[0]);
            assert forall|i: int, j: int| 0 <= i < j < m.len() implies density_ge(m[i], m[j]) by {
                assert(m[j] == rest[j - 1]);
                if i > 0 {
                    assert(m[i] == rest[i - 1]);
                }
            }
        }
    } else if a.len() == 0 {
        assert(a.to_multiset() =~= Multiset::empty());
    } else {
        assert(b.to_multiset() =~= Multiset::empty());
    }
}

proof fn lemma_class_empty(s: Seq<Item>, x: Item)
    requires
        forall|i: int| 0 <= i < s.len() ==> !same_density(#[trigger] s[i], x),
    ensures
        density_class(s, x) == Seq::<Item>::empty(),
    decreases s.len(),
{
    reveal(Seq::filter);
    if s.len() > 0 {
        lemma_class_empty(s.drop_last(), x);
    }
}

proof fn lemma_merge_stable(a: Seq<Item>, b: Seq<Item>, x: Item)
    requires
        descending(a),
        descending(b),
    ensures
        density_class(merge_by_density(a, b), x) == density_class(a, x) + density_class(b, x),
    decreases a.len() + b.len(),
{
    let p = |e: Item| same_density(e, x);
    if a.len() == 0 {
        assert(density_class(a, x) =~= Seq::<Item>::empty()) by {
            reveal(Seq::filter);
        }
        assert(density_class(b, x) =~= Seq::<Item>::empty() + density_class(b, x));
    } else if b.len() == 0 {
        assert(density_class(b, x) =~= Seq::<Item>::empty()) by {
            reveal(Seq::filter);
        }
        assert(density_class(a, x) =~= density_class(a, x) + Seq::<Item>::empty());
    } else {
        assert(a =~= seq![a[0]] + a.drop_first());
        assert(b =~= seq![b[0]] + b.drop_first());
        a.drop_first().lemma_filter_prepend(a[0], p);
        b.drop_first().lemma_filter_prepend(b[0], p);
        if density_ge(a[0], b[0]) {
            let rest = merge_by_density(a.drop_first(), b);
            lemma_merge_stable(a.drop_first(), b, x);
            rest.lemma_filter_prepend(a[0], p);
            assert(density_class(merge_by_density(a, b), x) =~= density_class(a, x)
                + density_class(b, x));
        } else {
            let rest = merge_by_density(a, b.drop_first());
            lemma_merge_stable(a, b.drop_first(), x);
            rest.lemma_filter_prepend(b[0], p);
            if p(b[0]) {
                assert forall|i: int| 0 <= i < a.len() implies !same_density(
                    #[trigger] a[i],
                    x,
                ) by {
                    if density_ge(a[i], b[0]) {
                        lemma_density_transitive(a[0], a[i], b[0]);
                    }
                    if same_density(a[i], x) {
                        lemma_density_transitive(a[i], x, b[0]);
                    }
                }
                lemma_class_empty(a, x);
            }
            assert(density_class(merge_by_density(a, b), x) =~= density_class(a, x)
                + density_class(b, x));
        }
    }
}

fn merge_runs(a: Vec<Item>, b: Vec<Item>) -> (r: Vec<Item>)
    ensures
        r@ == merge_by_density(a@, b@),
{
    let mut out: Vec<Item> = Vec::new();
    let mut i: usize = 0;
    let mut j: usize = 0;
    while i < a.len() || j < b.len()
        invariant
            i <= a@.len(),
            j <= b@.len(),
            out@ + merge_by_density(a@.skip(i as int), b@.skip(j as int)) == merge_by_density(
                a@,
                b@,
            ),
        decreases a@.len() + b@.len() - i - j,
    {
        let ghost (sa, sb) = (a@.skip(i as int), b@.skip(j as int));
        if j >= b.len() || (i < a.len() && a[i].denser_or_equal(&b[j])) {
            assert(sa.drop_first() =~= a@.skip(i as int + 1));
            assert(sa =~= seq![a@[i as int]] + sa.drop_first());
            out.push(a[i]);
            i = i + 1;
        } else {
            assert(sb.drop_first() =~= b@.skip(j as int + 1));
            assert(sb =~= seq![b@[j as int]] + sb.drop_first());
            out.push(b[j]);
            j = j + 1;
        }
        assert(out@ + merge_by_density(a@.skip(i as int), b@.skip(j as int)) =~= merge_by_density(
            a@,
            b@,
        ));
    }
    assert(merge_by_density(a@.skip(i as int), b@.skip(j as int)) =~= Seq::<Item>::empty());
    assert(out@ =~= out@ + Seq::<Item>::empty());
    out
}

fn sort_range(items: &[Item], lo: usize, hi: usize) -> (r: Vec<Item>)
    requires
        lo <= hi <= items@.len(),
    ensures
        descending(r@),
        r@.to_multiset() == items@.subrange(lo as int, hi as int).to_multiset(),
        forall|x: Item| #[trigger]
            density_class(r@, x) == density_class(items@.subrange(lo as int, hi as int), x),
    decreases hi - lo,
{
    if hi - lo <= 1 {
        let mut out: Vec<Item> = Vec::new();
        if hi > lo {
            out.push(items[lo]);
        }
        assert(out@ =~= items@.subrange(lo as int, hi as int));
        return out;
    }
    let mid: usize = lo + (hi - lo) / 2;
    let left = sort_range(items, lo, mid);
    let right = sort_range(items, mid, hi);
    let ghost (l, rt) = (left@, right@);
    let out = merge_runs(left, right);
    proof {
        let s = items@.subrange(lo as int, hi as int);
        let sl = items@.subrange(lo as int, mid as int);
        let sr = items@.subrange(mid as int, hi as int);
        assert(s =~= sl + sr);
        lemma_merge_descending(l, rt);
        vstd::seq_lib::lemma_multiset_commutative(sl, sr);
        assert forall|x: Item| #[trigger]
            density_class(out@, x) == density_class(s, x) by {
            lemma_merge_stable(l, rt, x);
            Seq::filter_distributes_over_add(sl, sr, |e: Item| same_density(e, x));
        }
    }
    out
}

/// Returns the items ordered by descending density, by a stable merge sort.
/// The result holds each item as many times as the input does; each item in it
/// is at least as dense as every item after it, so items of weight zero come
/// first; and the items of any one density keep their relative order from the
/// input. These three facts fix the result. The input is left as it is.
pub fn sort_by_density(items: &[Item]) -> (r: Vec<Item>)
    ensures
        r@.to_multiset() == items@.to_multiset(),
        descending(r@),
        forall|i: int| 0 <= i < r@.len() - 1 ==> density_ge(#[trigger] r@[i], r@[i + 1]),
        forall|x: Item| #[trigger] density_class(r@, x) == density_class(items@, x),
{
    let r = sort_range(items, 0, items.len());
    assert(items@.subrange(0, items@.len() as int) =~= items@);
    r
}

} // verus!
