//! What filtering does to a sequence: it leaves items out, and nothing else.
//! The searches are filters over the lines of a text, and what is proved of
//! them rests on the lemmas of this file.

use vstd::prelude::*;

verus! {

/// `part` is `whole` with some items left out: `part[k]` is the item that
/// stands at `at[k]` in `whole`, and `at` rises, so the items of `part` come
/// in the order of `whole` and no item of `whole` is used twice.
pub open spec fn stands_in_order<T>(part: Seq<T>, whole: Seq<T>, at: Seq<int>) -> bool {
    &&& at.len() == part.len()
    &&& forall|k: int|
        0 <= k < part.len() ==> 0 <= #[trigger] at[k] < whole.len() && whole[at[k]] == part[k]
    &&& forall|j: int, k: int| 0 <= j < k < part.len() ==> at[j] < at[k]
}

/// A filter looks at the first item, then at the rest.
pub proof fn lemma_filter_unfolds_at_front<T>(items: Seq<T>, keep: spec_fn(T) -> bool)
    requires
        items.len() > 0,
    ensures
        keep(items.first()) ==> items.filter(keep) == seq![items.first()]
            + items.drop_first().filter(keep),
        !keep(items.first()) ==> items.filter(keep) == items.drop_first().filter(keep),
{
    let head = seq![items.first()];
    assert(head + items.drop_first() == items);
    Seq::filter_distributes_over_add(head, items.drop_first(), keep);
    assert(head.filter(keep) == (if keep(items.first()) {
        head
    } else {
        Seq::empty()
    })) by {
        reveal_with_fuel(Seq::filter, 2);
        assert(head.drop_last() == Seq::<T>::empty());
    }
}

/// What a filter keeps comes in the old order, everything kept passes the
/// test, and nothing that passes it is left out. `at` gives the old place of
/// each item kept.
pub proof fn lemma_filter_keeps_order<T>(items: Seq<T>, keep: spec_fn(T) -> bool) -> (at: Seq<int>)
    ensures
        stands_in_order(items.filter(keep), items, at),
        forall|k: int| 0 <= k < at.len() ==> keep(items[#[trigger] at[k]]),
        forall|i: int| 0 <= i < items.len() && keep(#[trigger] items[i]) ==> at.contains(i),
    decreases items.len(),
{
    reveal(Seq::filter);
    if items.len() == 0 {
        Seq::empty()
    } else {
        let front = items.drop_last();
        let last = items.len() - 1;
        let front_at = lemma_filter_keeps_order(front, keep);
        assert forall|k: int| 0 <= k < front_at.len() implies items[#[trigger] front_at[k]]
            == front[front_at[k]] by {}
        if keep(items.last()) {
            let at = front_at.push(last);
            assert forall|i: int|
                0 <= i < items.len() && keep(#[trigger] items[i]) implies at.contains(i) by {
                if i < last {
                    assert(keep(front[i]));
                    let k = choose|k: int| 0 <= k < front_at.len() && front_at[k] == i;
                    assert(at[k] == i);
                } else {
                    assert(at[front_at.len() as int] == i);
                }
            }
            at
        } else {
            assert forall|i: int|
                0 <= i < items.len() && keep(#[trigger] items[i]) implies front_at.contains(i) by {
                assert(keep(front[i]));
            }
            front_at
        }
    }
}

/// A test that every item passes leaves nothing out.
pub proof fn lemma_filter_keeps_all<T>(items: Seq<T>, keep: spec_fn(T) -> bool)
    requires
        forall|i: int| 0 <= i < items.len() ==> keep(#[trigger] items[i]),
    ensures
        items.filter(keep) == items,
    decreases items.len(),
{
    reveal(Seq::filter);
    if items.len() > 0 {
        let front = items.drop_last();
        assert forall|i: int| 0 <= i < front.len() implies keep(#[trigger] front[i]) by {
            assert(front[i] == items[i]);
        }
        lemma_filter_keeps_all(front, keep);
        assert(front.push(items.last()) == items);
    }
}

/// A test that no item passes leaves nothing in.
pub proof fn lemma_filter_keeps_none<T>(items: Seq<T>, keep: spec_fn(T) -> bool)
    requires
        forall|i: int| 0 <= i < items.len() ==> !keep(#[trigger] items[i]),
    ensures
        items.filter(keep).len() == 0,
{
    let at = lemma_filter_keeps_order(items, keep);
    if at.len() > 0 {
        assert(keep(items[at[0]]));
    }
}

/// A weaker test keeps at least what a stronger one keeps: where every item
/// that passes `narrow` passes `wide`, the items that `narrow` keeps stand in
/// order among those that `wide` keeps, and are no more in number.
pub proof fn lemma_wider_filter_keeps_more<T>(
    items: Seq<T>,
    narrow: spec_fn(T) -> bool,
    wide: spec_fn(T) -> bool,
) -> (at: Seq<int>)
    requires
        forall|i: int| 0 <= i < items.len() && narrow(#[trigger] items[i]) ==> wide(items[i]),
    ensures
        stands_in_order(items.filter(narrow), items.filter(wide), at),
        items.filter(narrow).len() <= items.filter(wide).len(),
    decreases items.len(),
{
    reveal(Seq::filter);
    if items.len() == 0 {
        Seq::empty()
    } else {
        let front = items.drop_last();
        assert forall|i: int|
            0 <= i < front.len() && narrow(#[trigger] front[i]) implies wide(front[i]) by {
            assert(front[i] == items[i]);
        }
        let front_at = lemma_wider_filter_keeps_more(front, narrow, wide);
        if narrow(items.last()) {
            front_at.push(front.filter(wide).len() as int)
        } else {
            front_at
        }
    }
}

} // verus!
