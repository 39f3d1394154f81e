//! Sorting public items into their logical grouping.

use vstd::prelude::*;
use vstd::seq_lib::{
    lemma_seq_union_to_multiset_commutative, to_multiset_build, to_multiset_contains,
    to_multiset_insert, to_multiset_len, to_multiset_remove,
};

use crate::public_item::{
    key_order, lemma_key_order_basics, lemma_key_order_strict, lemma_key_order_transitive,
    GroupingKey, PublicItem,
};
use crate::text_order::{lemma_path_order_basics, lemma_path_prefix_interval, path_order};

verus! {

/// Every item sorts no later than the items after it.
pub open spec fn grouping_sorted(s: Seq<PublicItem>) -> bool {
    forall|i: int, j: int|
        0 <= i < j < s.len() ==> key_order(#[trigger] s[i].grouping_key(), #[trigger] s[j].grouping_key())
            <= 0
}

/// Whether an item belongs to the group of items with the key `k`.
pub open spec fn in_group(k: GroupingKey) -> spec_fn(PublicItem) -> bool {
    |y: PublicItem| y.grouping_key() == k
}

/// `r` is `s` sorted stably by grouping: the same items, sorted, and the
/// items of each group in the order they had in `s`.
pub open spec fn is_stable_grouping_sort(r: Seq<PublicItem>, s: Seq<PublicItem>) -> bool {
    &&& r.to_multiset() == s.to_multiset()
    &&& grouping_sorted(r)
    &&& forall|k: GroupingKey| #[trigger] r.filter(in_group(k)) == s.filter(in_group(k))
}

/// Whether `a` sorts strictly before `b`.
fn sorts_before(a: &PublicItem, b: &PublicItem) -> (r: bool)
    ensures
        r == (key_order(a.grouping_key(), b.grouping_key()) < 0),
{
    match a.grouping_cmp(b) {
        std::cmp::Ordering::Less => true,
        _ => false,
    }
}

/// The first position in the sorted `v` whose item does not sort before `x`.
fn lower_bound(v: &Vec<PublicItem>, x: &PublicItem) -> (p: usize)
    requires
        grouping_sorted(v@),
    ensures
        p <= v.len(),
        forall|i: int| 0 <= i < p ==> key_order(#[trigger] v@[i].grouping_key(), x.grouping_key()) < 0,
        forall|i: int| p <= i < v.len() ==> key_order(#[trigger] v@[i].grouping_key(), x.grouping_key()) >= 0,
{
    let mut lo: usize = 0;
    let mut hi: usize = v.len();
    while lo < hi
        invariant
            lo <= hi <= v.len(),
            grouping_sorted(v@),
            forall|i: int| 0 <= i < lo ==> key_order(#[trigger] v@[i].grouping_key(), x.grouping_key()) < 0,
            forall|i: int| hi <= i < v.len() ==> key_order(#[trigger] v@[i].grouping_key(), x.grouping_key()) >= 0,
        decreases hi - lo,
    {
        let mid = lo + (hi - lo) / 2;
        let before = sorts_before(&v[mid], x);
        let ghost km = v@[mid as int].grouping_key();
        let ghost kx = x.grouping_key();
        if before {
            assert forall|i: int| 0 <= i < mid + 1 implies key_order(#[trigger] v@[i].grouping_key(), kx) < 0 by {
                if i < mid {
                    lemma_key_order_strict(v@[i].grouping_key(), km, kx);
                }
            }
            lo = mid + 1;
        } else {
            assert forall|i: int| mid <= i < v.len() implies key_order(#[trigger] v@[i].grouping_key(), kx) >= 0 by {
                lemma_key_order_basics(km, kx);
                if i > mid {
                    lemma_key_order_transitive(kx, km, v@[i].grouping_key());
                    lemma_key_order_basics(kx, v@[i].grouping_key());
                }
            }
            hi = mid;
        }
    }
    lo
}

/// Inserting `x` where [`lower_bound`] puts it keeps the sequence sorted, puts
/// `x` first in its group and leaves every other group as it was.
proof fn lemma_insert_at_lower_bound(s: Seq<PublicItem>, p: int, x: PublicItem)
    requires
        0 <= p <= s.len(),
        grouping_sorted(s),
        forall|i: int| 0 <= i < p ==> key_order(#[trigger] s[i].grouping_key(), x.grouping_key()) < 0,
        forall|i: int| p <= i < s.len() ==> key_order(#[trigger] s[i].grouping_key(), x.grouping_key()) >= 0,
    ensures
        grouping_sorted(s.insert(p, x)),
        forall|k: GroupingKey| #[trigger] s.insert(p, x).filter(in_group(k)) == (seq![x] + s).filter(in_group(k)),
{
    let r = s.insert(p, x);
    let kx = x.grouping_key();
    s.insert_ensures(p, x);
    assert forall|i: int, j: int| 0 <= i < j < r.len() implies key_order(
        #[trigger] r[i].grouping_key(),
        #[trigger] r[j].grouping_key(),
    ) <= 0 by {
        if j < p {
        } else if j == p {
        } else if i < p {
            assert(r[i] == s[i] && r[j] == s[j - 1]);
            lemma_key_order_basics(r[j].grouping_key(), kx);
            lemma_key_order_transitive(r[i].grouping_key(), kx, r[j].grouping_key());
        } else if i == p {
            assert(r[j] == s[j - 1]);
            lemma_key_order_basics(r[j].grouping_key(), kx);
        } else {
            assert(r[i] == s[i - 1] && r[j] == s[j - 1]);
        }
    }
    assert forall|k: GroupingKey| #[trigger] r.filter(in_group(k)) == (seq![x] + s).filter(in_group(k)) by {
        let f = in_group(k);
        let front = s.take(p);
        let back = s.skip(p);
        assert(s =~= front + back);
        assert(r =~= front + (seq![x] + back));
        Seq::filter_distributes_over_add(front, seq![x] + back, f);
        Seq::filter_distributes_over_add(front, back, f);
        back.lemma_filter_prepend(x, f);
        s.lemma_filter_prepend(x, f);
        if f(x) {
            assert forall|i: int| 0 <= i < front.len() implies !f(#[trigger] front[i]) by {
                lemma_key_order_basics(front[i].grouping_key(), kx);
            }
            front.lemma_all_neg_filter_empty(f);
            assert(front.filter(f) =~= Seq::<PublicItem>::empty());
            assert(r.filter(f) =~= seq![x] + back.filter(f));
            assert(s.filter(f) =~= back.filter(f));
        } else {
            assert(r.filter(f) =~= front.filter(f) + back.filter(f));
        }
    }
}

/// Sorts items stably by [`PublicItem::grouping_cmp`].
pub fn sort_by_grouping(items: Vec<PublicItem>) -> (r: Vec<PublicItem>)
    ensures
        is_stable_grouping_sort(r@, items@),
{
    let ghost orig = items@;
    let mut rest = items;
    let mut sorted: Vec<PublicItem> = Vec::new();
    assert(orig.skip(orig.len() as int) =~= Seq::<PublicItem>::empty());
    assert(orig.take(orig.len() as int) =~= orig);
    while rest.len() > 0
        invariant
            rest.len() <= orig.len(),
            rest@ == orig.take(rest.len() as int),
            sorted@.to_multiset() == orig.skip(rest.len() as int).to_multiset(),
            grouping_sorted(sorted@),
            forall|k: GroupingKey| #[trigger] sorted@.filter(in_group(k)) == orig.skip(rest.len() as int).filter(in_group(k)),
        decreases rest.len(),
    {
        let ghost n = rest.len() as int;
        let x = rest.pop().unwrap();
        let ghost before = sorted@;
        let p = lower_bound(&sorted, &x);
        sorted.insert(p, x);
        proof {
            assert(x == orig[n - 1]);
            assert(rest@ =~= orig.take(n - 1));
            assert(orig.skip(n - 1) =~= seq![x] + orig.skip(n));
            lemma_insert_at_lower_bound(before, p as int, x);
            to_multiset_insert(before, p as int, x);
            lemma_seq_union_to_multiset_commutative(seq![x], orig.skip(n));
            assert(orig.skip(n) + seq![x] =~= orig.skip(n).push(x));
            to_multiset_build(orig.skip(n), x);
            assert(sorted@.to_multiset() =~= orig.skip(n - 1).to_multiset());
            assert forall|k: GroupingKey| #[trigger] sorted@.filter(in_group(k)) == orig.skip(n - 1).filter(in_group(k)) by {
                before.lemma_filter_prepend(x, in_group(k));
                orig.skip(n).lemma_filter_prepend(x, in_group(k));
                assert(before.filter(in_group(k)) == orig.skip(n).filter(in_group(k)));
            }
        }
    }
    assert(orig.skip(0) =~= orig);
    sorted
}

/// Two sorted sequences whose groups hold the same items in the same order
/// are the same sequence.
proof fn lemma_sorted_same_groups_equal(r: Seq<PublicItem>, s: Seq<PublicItem>)
    requires
        grouping_sorted(r),
        grouping_sorted(s),
        forall|k: GroupingKey| #[trigger] r.filter(in_group(k)) == s.filter(in_group(k)),
    ensures
        r == s,
    decreases r.len() + s.len(),
{
    if r.len() == 0 && s.len() == 0 {
        assert(r =~= s);
    } else if r.len() == 0 {
        let f = in_group(s[0].grouping_key());
        s.lemma_filter_contains(f, 0);
        assert(r.filter(f).len() == 0) by {
            r.lemma_filter_len(f);
        }
        assert(s.filter(f).len() > 0);
    } else if s.len() == 0 {
        let f = in_group(r[0].grouping_key());
        r.lemma_filter_contains(f, 0);
        assert(s.filter(f).len() == 0) by {
            s.lemma_filter_len(f);
        }
        assert(r.filter(f).len() > 0);
    } else {
        let x = r.last();
        let y = s.last();
        let kx = x.grouping_key();
        let ky = y.grouping_key();
        let fx = in_group(kx);
        let fy = in_group(ky);
        let r0 = r.drop_last();
        let s0 = s.drop_last();
        assert(r =~= r0.push(x));
        assert(s =~= s0.push(y));
        // The last items of both sequences are in the same group.
        r.lemma_filter_contains(fx, r.len() - 1);
        s.lemma_filter_contains(fy, s.len() - 1);
        s.lemma_filter_contains_rev(fx, x);
        r.lemma_filter_contains_rev(fy, y);
        let i = choose|i: int| 0 <= i < s.len() && s[i] == x;
        let j = choose|j: int| 0 <= j < r.len() && r[j] == y;
        if i < s.len() - 1 {
            assert(key_order(s[i].grouping_key(), s[s.len() - 1].grouping_key()) <= 0);
        }
        if j < r.len() - 1 {
            assert(key_order(r[j].grouping_key(), r[r.len() - 1].grouping_key()) <= 0);
        }
        lemma_key_order_basics(kx, ky);
        lemma_key_order_basics(ky, ky);
        lemma_key_order_basics(kx, kx);
        assert(kx == ky);
        // So the last items are the last items of that group.
        r0.lemma_filter_push(x, fx);
        s0.lemma_filter_push(y, fx);
        assert(x == r.filter(fx).last());
        assert(y == s.filter(fx).last());
        assert(x == y);
        // And what comes before them has the same groups too.
        assert forall|k: GroupingKey| #[trigger] r0.filter(in_group(k)) == s0.filter(in_group(k)) by {
            r0.lemma_filter_push(x, in_group(k));
            s0.lemma_filter_push(x, in_group(k));
            assert(r.filter(in_group(k)) == s.filter(in_group(k)));
            if in_group(k)(x) {
                assert(r0.filter(in_group(k)) =~= r.filter(in_group(k)).drop_last());
                assert(s0.filter(in_group(k)) =~= s.filter(in_group(k)).drop_last());
            }
        }
        assert(grouping_sorted(r0)) by {
            assert forall|a: int, b: int| 0 <= a < b < r0.len() implies key_order(
                #[trigger] r0[a].grouping_key(),
                #[trigger] r0[b].grouping_key(),
            ) <= 0 by {
                assert(r0[a] == r[a] && r0[b] == r[b]);
            }
        }
        assert(grouping_sorted(s0)) by {
            assert forall|a: int, b: int| 0 <= a < b < s0.len() implies key_order(
                #[trigger] s0[a].grouping_key(),
                #[trigger] s0[b].grouping_key(),
            ) <= 0 by {
                assert(s0[a] == s[a] && s0[b] == s[b]);
            }
        }
        lemma_sorted_same_groups_equal(r0, s0);
    }
}

/// The stable sort by grouping is unique: any two stable sorts of the same
/// items are the same sequence. So the contract of
/// [`crate::PublicApi::new`] pins down its result.
pub proof fn law_stable_grouping_sort_is_unique(r1: Seq<PublicItem>, r2: Seq<PublicItem>, s: Seq<PublicItem>)
    requires
        is_stable_grouping_sort(r1, s),
        is_stable_grouping_sort(r2, s),
    ensures
        r1 == r2,
{
    assert forall|k: GroupingKey| #[trigger] r1.filter(in_group(k)) == r2.filter(in_group(k)) by {
        assert(r1.filter(in_group(k)) == s.filter(in_group(k)));
        assert(r2.filter(in_group(k)) == s.filter(in_group(k)));
    }
    lemma_sorted_same_groups_equal(r1, r2);
}

/// Sorting items that are already sorted by grouping leaves them as they
/// are: the items of an API, sorted again, are the same items in the same
/// order.
pub proof fn law_sorting_sorted_items_keeps_them(r: Seq<PublicItem>, s: Seq<PublicItem>)
    requires
        grouping_sorted(s),
        is_stable_grouping_sort(r, s),
    ensures
        r == s,
{
    lemma_sorted_same_groups_equal(r, s);
}

/// The sortable path of `p` begins with that of `q`.
pub open spec fn extends_path(p: PublicItem, q: PublicItem) -> bool {
    q.path_spec().len() <= p.path_spec().len() && p.path_spec().take(q.path_spec().len() as int)
        == q.path_spec()
}

/// In items sorted by grouping, the items whose paths extend the path of an
/// item (such as the fields of a struct) come right after it: every item
/// between an item and an item that extends its path extends its path too.
pub proof fn law_sorted_items_keep_extensions_together(s: Seq<PublicItem>, i: int, j: int, k: int)
    requires
        grouping_sorted(s),
        0 <= i <= j <= k < s.len(),
        extends_path(s[k], s[i]),
    ensures
        extends_path(s[j], s[i]),
{
    if i < j {
        assert(key_order(s[i].grouping_key(), s[j].grouping_key()) <= 0);
    }
    if j < k {
        assert(key_order(s[j].grouping_key(), s[k].grouping_key()) <= 0);
    }
    assert(path_order(s[i].path_spec(), s[j].path_spec()) <= 0) by {
        if i == j {
            lemma_path_order_basics(s[i].path_spec(), s[j].path_spec());
        }
    }
    assert(path_order(s[j].path_spec(), s[k].path_spec()) <= 0) by {
        if j == k {
            lemma_path_order_basics(s[j].path_spec(), s[k].path_spec());
        }
    }
    lemma_path_prefix_interval(s[i].path_spec(), s[j].path_spec(), s[k].path_spec());
}

/// Two sorted sequences of the same items have the same grouping key at
/// every position.
proof fn lemma_sorted_same_items_same_keys(r1: Seq<PublicItem>, r2: Seq<PublicItem>)
    requires
        grouping_sorted(r1),
        grouping_sorted(r2),
        r1.to_multiset() == r2.to_multiset(),
    ensures
        r1.len() == r2.len(),
        forall|k: int| 0 <= k < r1.len() ==> #[trigger] r1[k].grouping_key() == r2[k].grouping_key(),
    decreases r1.len(),
{
    to_multiset_len(r1);
    to_multiset_len(r2);
    if r1.len() > 0 {
        let n = r1.len() - 1;
        let x = r1[n];
        let y = r2[n];
        // Both last items are in both sequences, and sort last in each.
        to_multiset_contains(r1, x);
        to_multiset_contains(r2, x);
        to_multiset_contains(r1, y);
        to_multiset_contains(r2, y);
        assert(r2.contains(y)) by {
            assert(r2[n] == y);
        }
        assert(r1.contains(x)) by {
            assert(r1[n] == x);
        }
        let j = choose|j: int| 0 <= j < r1.len() && r1[j] == y;
        let i = choose|i: int| 0 <= i < r2.len() && r2[i] == x;
        if j < n {
            assert(key_order(r1[j].grouping_key(), r1[n].grouping_key()) <= 0);
        }
        if i < n {
            assert(key_order(r2[i].grouping_key(), r2[n].grouping_key()) <= 0);
        }
        lemma_key_order_basics(x.grouping_key(), y.grouping_key());
        lemma_key_order_basics(x.grouping_key(), x.grouping_key());
        let ky = y.grouping_key();
        assert(x.grouping_key() == ky);
        // From `j` on, every item of `r1` has the key of `y`.
        assert forall|m: int| j <= m < r1.len() implies #[trigger] r1[m].grouping_key() == ky by {
            if j < m {
                assert(key_order(r1[j].grouping_key(), r1[m].grouping_key()) <= 0);
            }
            if m < n {
                assert(key_order(r1[m].grouping_key(), r1[n].grouping_key()) <= 0);
            }
            lemma_key_order_basics(r1[m].grouping_key(), ky);
            lemma_key_order_basics(ky, ky);
        }
        let s1 = r1.remove(j);
        let s2 = r2.remove(n);
        to_multiset_remove(r1, j);
        to_multiset_remove(r2, n);
        assert(grouping_sorted(s1)) by {
            assert forall|a: int, b: int| 0 <= a < b < s1.len() implies key_order(
                #[trigger] s1[a].grouping_key(),
                #[trigger] s1[b].grouping_key(),
            ) <= 0 by {
                let a1 = if a < j { a } else { a + 1 };
                let b1 = if b < j { b } else { b + 1 };
                assert(s1[a] == r1[a1] && s1[b] == r1[b1]);
            }
        }
        assert(grouping_sorted(s2)) by {
            assert forall|a: int, b: int| 0 <= a < b < s2.len() implies key_order(
                #[trigger] s2[a].grouping_key(),
                #[trigger] s2[b].grouping_key(),
            ) <= 0 by {
                assert(s2[a] == r2[a] && s2[b] == r2[b]);
            }
        }
        lemma_sorted_same_items_same_keys(s1, s2);
        assert forall|k: int| 0 <= k < r1.len() implies #[trigger] r1[k].grouping_key() == r2[k].grouping_key() by {
            if k < j {
                assert(s1[k] == r1[k] && s2[k] == r2[k]);
                assert(s1[k].grouping_key() == s2[k].grouping_key());
            } else if k < n {
                assert(s1[k] == r1[k + 1] && s2[k] == r2[k]);
                assert(s1[k].grouping_key() == s2[k].grouping_key());
                assert(r1[k + 1].grouping_key() == ky);
            } else {
                assert(r1[n].grouping_key() == ky);
            }
        }
    }
}

/// The order that sorting gives does not depend on the order of the input,
/// except among items of the same group: sorting two orderings of the same
/// items gives, at every position, items with the same sortable path and the
/// same text.
pub proof fn law_sort_ignores_input_order(
    r1: Seq<PublicItem>,
    s1: Seq<PublicItem>,
    r2: Seq<PublicItem>,
    s2: Seq<PublicItem>,
)
    requires
        is_stable_grouping_sort(r1, s1),
        is_stable_grouping_sort(r2, s2),
        s1.to_multiset() == s2.to_multiset(),
    ensures
        r1.len() == r2.len(),
        forall|k: int|
            0 <= k < r1.len() ==> #[trigger] r1[k].path_spec() == r2[k].path_spec() && r1[k].text_spec()
                == r2[k].text_spec(),
{
    lemma_sorted_same_items_same_keys(r1, r2);
    assert forall|k: int| 0 <= k < r1.len() implies #[trigger] r1[k].path_spec() == r2[k].path_spec()
        && r1[k].text_spec() == r2[k].text_spec() by {
        assert(r1[k].grouping_key() == r2[k].grouping_key());
    }
}

} // verus!
