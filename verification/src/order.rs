//! Arranging a sequence by a ranking: every item goes before the first
//! item that it has to precede, so that items between which the ranking
//! does not decide keep the order in which they came.

use vstd::prelude::*;

verus! {

/// `before` is a ranking: of two items at most one has to precede the
/// other, and an item that has to precede a second one also has to precede
/// every item that need not precede the second.
pub open spec fn is_ranking<A>(before: spec_fn(A, A) -> bool) -> bool {
    &&& forall|a: A, b: A| #[trigger] before(a, b) ==> !before(b, a)
    &&& forall|a: A, b: A, c: A| #[trigger] before(a, b) && !#[trigger] before(c, b) ==> before(a, c)
}

/// No item of `items` has to precede an item that stands before it.
pub open spec fn ordered<A>(items: Seq<A>, before: spec_fn(A, A) -> bool) -> bool {
    forall|i: int, j: int| 0 <= i < j < items.len() ==> !before(#[trigger] items[j], #[trigger] items[i])
}

/// Where `item` enters `listed`: before the first item that it has to
/// precede, at the end if there is none.
pub open spec fn slot<A>(listed: Seq<A>, item: A, before: spec_fn(A, A) -> bool) -> int
    decreases listed.len(),
{
    if listed.len() == 0 || before(item, listed[0]) {
        0
    } else {
        1 + slot(listed.drop_first(), item, before)
    }
}

/// `listed` with `item` entered at its slot.
pub open spec fn placed<A>(listed: Seq<A>, item: A, before: spec_fn(A, A) -> bool) -> Seq<A> {
    listed.insert(slot(listed, item, before), item)
}

/// The items of `items` arranged by `before`: entered one after the other,
/// in the order in which they stand in `items`.
pub open spec fn arranged<A>(items: Seq<A>, before: spec_fn(A, A) -> bool) -> Seq<A>
    decreases items.len(),
{
    if items.len() == 0 {
        Seq::empty()
    } else {
        placed(arranged(items.drop_last(), before), items.last(), before)
    }
}

/// The slot of an item lies within the listing, after the items that the
/// new item need not precede and at the first item that it has to precede.
pub proof fn lemma_slot<A>(listed: Seq<A>, item: A, before: spec_fn(A, A) -> bool)
    ensures
        0 <= slot(listed, item, before) <= listed.len(),
        forall|k: int| 0 <= k < slot(listed, item, before) ==> !before(item, #[trigger] listed[k]),
        slot(listed, item, before) < listed.len() ==> before(
            item,
            listed[slot(listed, item, before)],
        ),
    decreases listed.len(),
{
    if listed.len() == 0 || before(item, listed[0]) {
    } else {
        let rest = listed.drop_first();
        lemma_slot(rest, item, before);
        assert forall|k: int| 0 <= k < slot(listed, item, before) implies !before(
            item,
            #[trigger] listed[k],
        ) by {
            if k > 0 {
                assert(listed[k] == rest[k - 1]);
            }
        }
        if slot(listed, item, before) < listed.len() {
            assert(listed[slot(listed, item, before)] == rest[slot(rest, item, before)]);
        }
    }
}

/// The slot of an item is the only index with the two properties of
/// [`lemma_slot`].
pub proof fn lemma_slot_is<A>(listed: Seq<A>, item: A, before: spec_fn(A, A) -> bool, at: int)
    requires
        0 <= at <= listed.len(),
        forall|k: int| 0 <= k < at ==> !before(item, #[trigger] listed[k]),
        at < listed.len() ==> before(item, listed[at]),
    ensures
        slot(listed, item, before) == at,
{
    lemma_slot(listed, item, before);
    let s = slot(listed, item, before);
    if s < at {
        assert(!before(item, listed[s]));
    } else if at < s {
        assert(!before(item, listed[at]));
    }
}

/// Entering an item into an ordered listing leaves it ordered.
pub proof fn lemma_placed_ordered<A>(listed: Seq<A>, item: A, before: spec_fn(A, A) -> bool)
    requires
        is_ranking(before),
        ordered(listed, before),
    ensures
        ordered(placed(listed, item, before), before),
{
    lemma_slot(listed, item, before);
    let at = slot(listed, item, before);
    let after = placed(listed, item, before);
    assert forall|i: int, j: int| 0 <= i < j < after.len() implies !before(
        #[trigger] after[j],
        #[trigger] after[i],
    ) by {
        if j < at {
            assert(after[i] == listed[i] && after[j] == listed[j]);
        } else if j == at {
            assert(after[i] == listed[i] && after[j] == item);
        } else if i == at {
            assert(after[j] == listed[j - 1]);
            assert(before(item, listed[at]));
            if at < j - 1 {
                assert(!before(listed[j - 1], listed[at]));
            }
        } else if i < at {
            assert(after[i] == listed[i] && after[j] == listed[j - 1]);
        } else {
            assert(after[i] == listed[i - 1] && after[j] == listed[j - 1]);
        }
    }
}

/// An arrangement is ordered.
pub proof fn lemma_arranged_ordered<A>(items: Seq<A>, before: spec_fn(A, A) -> bool)
    requires
        is_ranking(before),
    ensures
        ordered(arranged(items, before), before),
    decreases items.len(),
{
    if items.len() > 0 {
        lemma_arranged_ordered(items.drop_last(), before);
        lemma_placed_ordered(arranged(items.drop_last(), before), items.last(), before);
    }
}

/// An arrangement holds the items that were arranged, each as often as it
/// came.
pub proof fn lemma_arranged_permutes<A>(items: Seq<A>, before: spec_fn(A, A) -> bool)
    ensures
        arranged(items, before).to_multiset() == items.to_multiset(),
        arranged(items, before).len() == items.len(),
    decreases items.len(),
{
    if items.len() > 0 {
        let front = items.drop_last();
        let listed = arranged(front, before);
        lemma_arranged_permutes(front, before);
        lemma_slot(listed, items.last(), before);
        vstd::seq_lib::to_multiset_insert(listed, slot(listed, items.last(), before), items.last());
        vstd::seq_lib::to_multiset_build(front, items.last());
        assert(front.push(items.last()) =~= items);
    } else {
        assert(arranged(items, before) =~= items);
    }
}

/// Every item of an arrangement came with the items that were arranged,
/// and an item stands before another only where it has to precede it or
/// came before it: items between which the ranking does not decide keep
/// the order in which they came.
pub proof fn lemma_arranged_stable<A>(items: Seq<A>, before: spec_fn(A, A) -> bool)
    requires
        is_ranking(before),
    ensures
        forall|a: int|
            0 <= a < arranged(items, before).len() ==> exists|i: int|
                0 <= i < items.len() && #[trigger] items[i] == #[trigger] arranged(items, before)[a],
        forall|a: int, b: int|
            0 <= a < b < arranged(items, before).len() ==> before(
                #[trigger] arranged(items, before)[a],
                #[trigger] arranged(items, before)[b],
            ) || exists|i: int, j: int|
                0 <= i < j < items.len() && #[trigger] items[i] == arranged(items, before)[a]
                    && #[trigger] items[j] == arranged(items, before)[b],
    decreases items.len(),
{
    if items.len() > 0 {
        let front = items.drop_last();
        let last = items.last();
        let listed = arranged(front, before);
        let at = slot(listed, last, before);
        let after = arranged(items, before);
        let n = items.len() - 1;
        lemma_arranged_stable(front, before);
        lemma_arranged_ordered(front, before);
        lemma_slot(listed, last, before);
        assert forall|a: int| 0 <= a < after.len() implies exists|i: int|
            0 <= i < items.len() && #[trigger] items[i] == #[trigger] after[a] by {
            if a == at {
                assert(items[n] == after[a]);
            } else {
                let a0 = if a < at { a } else { a - 1 };
                assert(after[a] == listed[a0]);
                let i = choose|i: int| 0 <= i < front.len() && #[trigger] front[i] == listed[a0];
                assert(items[i] == front[i]);
            }
        }
        assert forall|a: int, b: int| 0 <= a < b < after.len() implies before(
            #[trigger] after[a],
            #[trigger] after[b],
        ) || exists|i: int, j: int|
            0 <= i < j < items.len() && #[trigger] items[i] == after[a] && #[trigger] items[j]
                == after[b] by {
            if b == at {
                assert(after[a] == listed[a]);
                let i = choose|i: int| 0 <= i < front.len() && #[trigger] front[i] == listed[a];
                assert(items[i] == front[i]);
                assert(items[n] == after[b]);
            } else if a == at {
                assert(after[b] == listed[b - 1]);
                assert(before(last, listed[at]));
                if at < b - 1 {
                    assert(!before(listed[b - 1], listed[at]));
                }
            } else {
                let a0 = if a < at { a } else { a - 1 };
                let b0 = if b < at { b } else { b - 1 };
                assert(after[a] == listed[a0] && after[b] == listed[b0]);
                if !before(listed[a0], listed[b0]) {
                    let (i, j) = choose|i: int, j: int|
                        0 <= i < j < front.len() && #[trigger] front[i] == listed[a0]
                            && #[trigger] front[j] == listed[b0];
                    assert(items[i] == front[i] && items[j] == front[j]);
                }
            }
        }
    }
}

} // verus!
