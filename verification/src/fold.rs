//! Sequences that are put together from a part for each item of another
//! sequence: the shape of every report.

use vstd::prelude::*;

verus! {

/// The parts that `f` gives for the items, one after the other.
pub open spec fn flat_map<A, B>(items: Seq<A>, f: spec_fn(A) -> Seq<B>) -> Seq<B>
    decreases items.len(),
{
    if items.len() == 0 {
        Seq::empty()
    } else {
        flat_map(items.drop_last(), f) + f(items.last())
    }
}

/// One more item adds its part at the end.
pub proof fn lemma_flat_map_step<A, B>(items: Seq<A>, f: spec_fn(A) -> Seq<B>, k: int)
    requires
        0 <= k < items.len(),
    ensures
        flat_map(items.take(k + 1), f) == flat_map(items.take(k), f) + f(items[k]),
{
    assert(items.take(k + 1).drop_last() == items.take(k));
}

/// The parts of two sequences in a row are the parts of the first and then
/// those of the second.
pub proof fn lemma_flat_map_concat<A, B>(a: Seq<A>, b: Seq<A>, f: spec_fn(A) -> Seq<B>)
    ensures
        flat_map(a + b, f) == flat_map(a, f) + flat_map(b, f),
    decreases b.len(),
{
    if b.len() == 0 {
        assert(a + b == a);
    } else {
        lemma_flat_map_concat(a, b.drop_last(), f);
        assert((a + b).drop_last() == a + b.drop_last());
        assert((a + b).last() == b.last());
    }
}

/// A single item gives its part.
pub proof fn lemma_flat_map_one<A, B>(x: A, f: spec_fn(A) -> Seq<B>)
    ensures
        flat_map(seq![x], f) == f(x),
{
    let one = seq![x];
    assert(one.len() == 1);
    assert(one.last() == x);
    assert(one.drop_last().len() == 0);
    assert(flat_map(one.drop_last(), f) == Seq::<B>::empty());
    assert(flat_map(one, f) == Seq::<B>::empty() + f(x));
}

/// An item whose part is empty can be left out.
pub proof fn lemma_flat_map_skip<A, B>(a: Seq<A>, x: A, b: Seq<A>, f: spec_fn(A) -> Seq<B>)
    requires
        f(x).len() == 0,
    ensures
        flat_map(a + seq![x] + b, f) == flat_map(a + b, f),
{
    lemma_flat_map_concat(a + seq![x], b, f);
    lemma_flat_map_concat(a, seq![x], f);
    lemma_flat_map_concat(a, b, f);
    lemma_flat_map_one(x, f);
    assert(f(x) == Seq::<B>::empty());
}

/// The items without repetition: each item at the place where it first
/// occurs.
pub open spec fn without_repeats<A>(items: Seq<A>) -> Seq<A>
    decreases items.len(),
{
    if items.len() == 0 {
        Seq::empty()
    } else if without_repeats(items.drop_last()).contains(items.last()) {
        without_repeats(items.drop_last())
    } else {
        without_repeats(items.drop_last()).push(items.last())
    }
}

/// One more item is added at the end unless it is there already.
pub proof fn lemma_without_repeats_push<A>(items: Seq<A>, x: A)
    ensures
        without_repeats(items.push(x)) == if without_repeats(items).contains(x) {
            without_repeats(items)
        } else {
            without_repeats(items).push(x)
        },
{
    assert(items.push(x).drop_last() == items);
    assert(items.push(x).last() == x);
}

/// Without repetition every item is there once, and no item is lost or
/// gained.
pub proof fn lemma_without_repeats<A>(items: Seq<A>)
    ensures
        without_repeats(items).no_duplicates(),
        forall|x: A| #[trigger] without_repeats(items).contains(x) <==> items.contains(x),
    decreases items.len(),
{
    let out = without_repeats(items);
    if items.len() > 0 {
        let head = items.drop_last();
        let last = items.last();
        let before = without_repeats(head);
        lemma_without_repeats(head);
        assert forall|x: A| #[trigger] out.contains(x) <==> items.contains(x) by {
            if out.contains(x) {
                if before.contains(x) {
                    assert(head.contains(x));
                    let k = choose|k: int| 0 <= k < head.len() && head[k] == x;
                    assert(items[k] == x);
                } else {
                    let k = choose|k: int| 0 <= k < out.len() && out[k] == x;
                    assert(out == before.push(last));
                    if k < before.len() {
                        assert(before[k] == x);
                    }
                    assert(x == last);
                    assert(items[items.len() - 1] == x);
                }
            }
            if items.contains(x) {
                let k = choose|k: int| 0 <= k < items.len() && items[k] == x;
                if k < head.len() {
                    assert(head[k] == x);
                    assert(before.contains(x));
                    let m = choose|m: int| 0 <= m < before.len() && before[m] == x;
                    assert(out[m] == x);
                } else {
                    assert(x == last);
                    if before.contains(last) {
                    } else {
                        assert(out[before.len() as int] == last);
                    }
                }
            }
        }
        if !before.contains(last) {
            assert forall|i: int, j: int| 0 <= i < out.len() && 0 <= j < out.len() && i != j implies out[i]
                != out[j] by {
                if i < before.len() && j < before.len() {
                    assert(before[i] != before[j]);
                } else if i < before.len() {
                    assert(before[i] == out[i]);
                } else {
                    assert(before[j] == out[j]);
                }
            }
        }
    }
}

} // verus!
