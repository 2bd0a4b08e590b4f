//! Stable sorting by a text.

use vstd::prelude::*;

use crate::text::text_less;

verus! {

// ---------------------------------------------------------------------------
// Sorted sequences
// ---------------------------------------------------------------------------

/// A sorted sequence with one more item, put behind the items that do not come
/// after it.
pub open spec fn inserted<A>(sorted: Seq<A>, item: A, key: spec_fn(A) -> Seq<char>) -> Seq<A>
    decreases sorted.len(),
{
    if sorted.len() == 0 || !crate::text::text_before(key(item), key(sorted.last())) {
        sorted.push(item)
    } else {
        inserted(sorted.drop_last(), item, key).push(sorted.last())
    }
}

/// The items in the order of their keys; items with the same key keep their
/// order.
pub open spec fn sorted_by<A>(items: Seq<A>, key: spec_fn(A) -> Seq<char>) -> Seq<A>
    decreases items.len(),
{
    if items.len() == 0 {
        Seq::empty()
    } else {
        inserted(sorted_by(items.drop_last(), key), items.last(), key)
    }
}

/// No item comes before one in front of it.
pub open spec fn is_sorted<A>(items: Seq<A>, key: spec_fn(A) -> Seq<char>) -> bool {
    forall|i: int, j: int|
        0 <= i < j < items.len() ==> !crate::text::text_before(
            key(#[trigger] items[j]),
            key(#[trigger] items[i]),
        )
}

/// The items with the given key.
pub open spec fn with_key<A>(key: spec_fn(A) -> Seq<char>, k: Seq<char>) -> spec_fn(A) -> bool {
    |item: A| key(item) == k
}

/// The same items for each key, in the same order.
pub open spec fn same_for_each_key<A>(
    one: Seq<A>,
    other: Seq<A>,
    key: spec_fn(A) -> Seq<char>,
) -> bool {
    forall|k: Seq<char>| #[trigger] one.filter(with_key(key, k)) == other.filter(with_key(key, k))
}

proof fn lemma_filter_push<A>(items: Seq<A>, item: A, keep: spec_fn(A) -> bool)
    ensures
        items.push(item).filter(keep) == if keep(item) {
            items.filter(keep).push(item)
        } else {
            items.filter(keep)
        },
{
    reveal(Seq::filter);
    assert(items.push(item).drop_last() == items);
}

proof fn lemma_inserted_filter<A>(
    sorted: Seq<A>,
    item: A,
    key: spec_fn(A) -> Seq<char>,
    k: Seq<char>,
)
    ensures
        inserted(sorted, item, key).filter(with_key(key, k)) == sorted.push(item).filter(
            with_key(key, k),
        ),
    decreases sorted.len(),
{
    let keep = with_key(key, k);
    lemma_filter_push(sorted, item, keep);
    if sorted.len() != 0 && crate::text::text_before(key(item), key(sorted.last())) {
        let front = sorted.drop_last();
        let last = sorted.last();
        crate::text::lemma_not_before(key(item), key(last), key(last));
        lemma_inserted_filter(front, item, key, k);
        lemma_filter_push(front, item, keep);
        lemma_filter_push(inserted(front, item, key), last, keep);
        assert(sorted == front.push(last));
        lemma_filter_push(front, last, keep);
    }
}

proof fn lemma_inserted_sorted<A>(sorted: Seq<A>, item: A, key: spec_fn(A) -> Seq<char>)
    requires
        is_sorted(sorted, key),
    ensures
        is_sorted(inserted(sorted, item, key), key),
        inserted(sorted, item, key).len() == sorted.len() + 1,
        forall|i: int|
            0 <= i <= sorted.len() ==> #[trigger] inserted(sorted, item, key)[i] == item
                || sorted.contains(inserted(sorted, item, key)[i]),
    decreases sorted.len(),
{
    let result = inserted(sorted, item, key);
    if sorted.len() == 0 || !crate::text::text_before(key(item), key(sorted.last())) {
        assert forall|i: int, j: int|
            0 <= i < j < result.len() implies !crate::text::text_before(
            key(#[trigger] result[j]),
            key(#[trigger] result[i]),
        ) by {
            assert(result[i] == sorted[i]);
            if j < sorted.len() {
                assert(result[j] == sorted[j]);
            } else {
                let last = sorted.len() - 1;
                crate::text::lemma_not_before(key(sorted[i]), key(sorted[last]), key(item));
                crate::text::lemma_text_order(key(sorted[i]), key(sorted[i]));
            }
        }
        assert forall|i: int| 0 <= i <= sorted.len() implies #[trigger] result[i] == item
            || sorted.contains(result[i]) by {
            if i < sorted.len() {
                assert(sorted[i] == result[i]);
            }
        }
    } else {
        let front = sorted.drop_last();
        let last = sorted.last();
        assert forall|i: int, j: int|
            0 <= i < j < front.len() implies !crate::text::text_before(
            key(#[trigger] front[j]),
            key(#[trigger] front[i]),
        ) by {
            assert(front[i] == sorted[i] && front[j] == sorted[j]);
        }
        lemma_inserted_sorted(front, item, key);
        let rest = inserted(front, item, key);
        assert forall|i: int| 0 <= i < rest.len() implies !crate::text::text_before(
            key(last),
            key(#[trigger] rest[i]),
        ) by {
            crate::text::lemma_not_before(key(item), key(last), key(last));
            if rest[i] != item {
                let k = choose|k: int| 0 <= k < front.len() && front[k] == rest[i];
                assert(sorted[k] == rest[i]);
                assert(sorted[sorted.len() - 1] == last);
            }
        }
        assert forall|i: int, j: int|
            0 <= i < j < result.len() implies !crate::text::text_before(
            key(#[trigger] result[j]),
            key(#[trigger] result[i]),
        ) by {
            assert(result[i] == rest[i]);
            if j < rest.len() {
                assert(result[j] == rest[j]);
            }
        }
        assert forall|i: int| 0 <= i <= sorted.len() implies #[trigger] result[i] == item
            || sorted.contains(result[i]) by {
            if i < rest.len() {
                assert(result[i] == rest[i]);
                if rest[i] != item {
                    let k = choose|k: int| 0 <= k < front.len() && front[k] == rest[i];
                    assert(sorted[k] == rest[i]);
                }
            } else {
                assert(sorted[sorted.len() - 1] == last);
            }
        }
    }
}

/// Sorting orders the items, and keeps those with the same key as they were:
/// nothing is lost or added.
pub proof fn law_sorting_is_stable<A>(items: Seq<A>, key: spec_fn(A) -> Seq<char>)
    ensures
        is_sorted(sorted_by(items, key), key),
        same_for_each_key(sorted_by(items, key), items, key),
        sorted_by(items, key).len() == items.len(),
    decreases items.len(),
{
    if items.len() != 0 {
        let front = items.drop_last();
        let last = items.last();
        law_sorting_is_stable(front, key);
        let sorted = sorted_by(front, key);
        lemma_inserted_sorted(sorted, last, key);
        assert forall|k: Seq<char>| #[trigger]
            sorted_by(items, key).filter(with_key(key, k)) == items.filter(with_key(key, k)) by {
            lemma_inserted_filter(sorted, last, key, k);
            lemma_filter_push(sorted, last, with_key(key, k));
            lemma_filter_push(front, last, with_key(key, k));
            assert(items == front.push(last));
            assert(sorted.filter(with_key(key, k)) == front.filter(with_key(key, k)));
        }
    } else {
        assert(items == Seq::<A>::empty());
    }
}

proof fn lemma_filter_has<A>(items: Seq<A>, keep: spec_fn(A) -> bool, i: int)
    requires
        0 <= i < items.len(),
        keep(items[i]),
    ensures
        items.filter(keep).contains(items[i]),
{
    items.lemma_filter_contains(keep, i);
}

/// There is only one way to sort items stably.
pub proof fn law_stable_order_is_unique<A>(
    one: Seq<A>,
    other: Seq<A>,
    key: spec_fn(A) -> Seq<char>,
)
    requires
        is_sorted(one, key),
        is_sorted(other, key),
        same_for_each_key(one, other, key),
    ensures
        one == other,
    decreases one.len(),
{
    if one.len() == 0 {
        if other.len() != 0 {
            let keep = with_key(key, key(other[0]));
            lemma_filter_has(other, keep, 0);
            assert(one.filter(keep) == other.filter(keep));
            one.lemma_filter_len(keep);
        }
    } else {
        let last = one.last();
        let keep = with_key(key, key(last));
        lemma_filter_has(one, keep, one.len() - 1);
        assert(one.filter(keep) == other.filter(keep));
        other.lemma_filter_len(keep);
        let last_other = other.last();
        lemma_last_key(one, other, key);
        lemma_last_key(other, one, key);
        crate::text::lemma_text_order(key(last), key(last_other));
        let front = one.drop_last();
        let front_other = other.drop_last();
        assert(one == front.push(last));
        assert(other == front_other.push(last_other));
        lemma_filter_push(front, last, keep);
        lemma_filter_push(front_other, last_other, keep);
        assert(one.filter(keep).last() == last);
        assert(other.filter(keep).last() == last_other);
        assert forall|k: Seq<char>| #[trigger]
            front.filter(with_key(key, k)) == front_other.filter(with_key(key, k)) by {
            lemma_filter_push(front, last, with_key(key, k));
            lemma_filter_push(front_other, last, with_key(key, k));
            assert(one.filter(with_key(key, k)) == other.filter(with_key(key, k)));
            if key(last) == k {
                assert(front.filter(with_key(key, k)) == one.filter(
                    with_key(key, k),
                ).drop_last());
                assert(front_other.filter(with_key(key, k)) == other.filter(
                    with_key(key, k),
                ).drop_last());
            }
        }
        lemma_front_sorted(one, key);
        lemma_front_sorted(other, key);
        law_stable_order_is_unique(front, front_other, key);
    }
}

proof fn lemma_front_sorted<A>(items: Seq<A>, key: spec_fn(A) -> Seq<char>)
    requires
        is_sorted(items, key),
        items.len() > 0,
    ensures
        is_sorted(items.drop_last(), key),
{
    let front = items.drop_last();
    assert forall|i: int, j: int| 0 <= i < j < front.len() implies !crate::text::text_before(
        key(#[trigger] front[j]),
        key(#[trigger] front[i]),
    ) by {
        assert(front[i] == items[i] && front[j] == items[j]);
    }
}

proof fn lemma_last_key<A>(one: Seq<A>, other: Seq<A>, key: spec_fn(A) -> Seq<char>)
    requires
        one.len() > 0,
        other.len() > 0,
        is_sorted(other, key),
        same_for_each_key(one, other, key),
    ensures
        !crate::text::text_before(key(other.last()), key(one.last())),
{
    let keep = with_key(key, key(one.last()));
    lemma_filter_has(one, keep, one.len() - 1);
    assert(one.filter(keep) == other.filter(keep));
    other.lemma_filter_contains_rev(keep, one.last());
    let k = choose|k: int| 0 <= k < other.len() && other[k] == one.last();
    if k < other.len() - 1 {
        assert(other[other.len() - 1] == other.last());
    } else {
        crate::text::lemma_text_order(key(other.last()), key(other.last()));
    }
}

// ---------------------------------------------------------------------------
// Sorting positions
// ---------------------------------------------------------------------------

/// The positions from `from` up to `to`.
pub open spec fn positions(from: int, to: int) -> Seq<int> {
    Seq::new((to - from) as nat, |i: int| from + i)
}

/// The key at a position.
pub open spec fn key_at(keys: Seq<String>) -> spec_fn(int) -> Seq<char> {
    |i: int| keys[i]@
}

/// Positions as integers.
pub open spec fn as_ints(order: Seq<usize>) -> Seq<int> {
    order.map_values(|i: usize| i as int)
}

/// Every position is one of a key.
pub open spec fn in_bounds(order: Seq<usize>, n: nat) -> bool {
    forall|i: int| 0 <= i < order.len() ==> (#[trigger] order[i]) < n
}

/// What holds while two sequences are merged into `out`.
spec fn merging(
    a: Seq<int>,
    b: Seq<int>,
    out: Seq<int>,
    i: int,
    j: int,
    key: spec_fn(int) -> Seq<char>,
) -> bool {
    &&& 0 <= i <= a.len()
    &&& 0 <= j <= b.len()
    &&& is_sorted(a, key)
    &&& is_sorted(b, key)
    &&& is_sorted(out, key)
    &&& forall|m: int|
        #![trigger out[m]]
        0 <= m < out.len() && i < a.len() ==> !crate::text::text_before(key(a[i]), key(out[m]))
    &&& forall|m: int|
        #![trigger out[m]]
        0 <= m < out.len() && j < b.len() ==> !crate::text::text_before(key(b[j]), key(out[m]))
    &&& forall|m: int|
        0 <= m < j && i < a.len() ==> crate::text::text_before(key(#[trigger] b[m]), key(a[i]))
    &&& forall|k: Seq<char>| #[trigger]
        out.filter(with_key(key, k)) == a.take(i).filter(with_key(key, k)) + b.take(j).filter(
            with_key(key, k),
        )
}

/// Merges two sorted lists of positions; of two with the same key that of the
/// first list comes first.
fn merge(keys: &Vec<String>, left: Vec<usize>, right: Vec<usize>) -> (order: Vec<usize>)
    requires
        in_bounds(left@, keys@.len()),
        in_bounds(right@, keys@.len()),
        is_sorted(as_ints(left@), key_at(keys@)),
        is_sorted(as_ints(right@), key_at(keys@)),
    ensures
        in_bounds(order@, keys@.len()),
        is_sorted(as_ints(order@), key_at(keys@)),
        same_for_each_key(as_ints(order@), as_ints(left@) + as_ints(right@), key_at(keys@)),
{
    let mut order: Vec<usize> = Vec::new();
    let mut i: usize = 0;
    let mut j: usize = 0;
    let ghost key = key_at(keys@);
    let ghost a = as_ints(left@);
    let ghost b = as_ints(right@);
    proof {
        assert(as_ints(order@) == Seq::<int>::empty());
        reveal(Seq::filter);
        assert forall|k: Seq<char>| #[trigger]
            as_ints(order@).filter(with_key(key, k)) == a.take(0).filter(with_key(key, k))
                + b.take(0).filter(with_key(key, k)) by {
            assert(a.take(0).filter(with_key(key, k)) == Seq::<int>::empty());
            assert(b.take(0).filter(with_key(key, k)) == Seq::<int>::empty());
        }
    }
    while i < left.len() || j < right.len()
        invariant
            i <= left@.len(),
            j <= right@.len(),
            key == key_at(keys@),
            a == as_ints(left@),
            b == as_ints(right@),
            in_bounds(left@, keys@.len()),
            in_bounds(right@, keys@.len()),
            in_bounds(order@, keys@.len()),
            merging(a, b, as_ints(order@), i as int, j as int, key),
        decreases left@.len() - i + right@.len() - j,
    {
        let take_left: bool = if i >= left.len() {
            false
        } else if j >= right.len() {
            true
        } else {
            let right_first: bool = text_less(&keys[right[j]], &keys[left[i]]);
            assert(b[j as int] == right@[j as int] as int);
            assert(a[i as int] == left@[i as int] as int);
            !right_first
        };
        let ghost before = as_ints(order@);
        if take_left {
            let next: usize = left[i];
            order.push(next);
            proof {
                let item = a[i as int];
                assert(item == next as int);
                assert(as_ints(order@) == before.push(item));
                lemma_merge_left(a, b, before, i as int, j as int, key);
            }
            i = i + 1;
        } else {
            let next: usize = right[j];
            order.push(next);
            proof {
                let item = b[j as int];
                assert(item == next as int);
                assert(as_ints(order@) == before.push(item));
                lemma_merge_right(a, b, before, i as int, j as int, key);
            }
            j = j + 1;
        }
    }
    proof {
        assert(a.take(i as int) == a);
        assert(b.take(j as int) == b);
        assert forall|k: Seq<char>| #[trigger]
            as_ints(order@).filter(with_key(key, k)) == (a + b).filter(with_key(key, k)) by {
            Seq::filter_distributes_over_add(a, b, with_key(key, k));
        }
    }
    order
}

proof fn lemma_merge_left(
    a: Seq<int>,
    b: Seq<int>,
    out: Seq<int>,
    i: int,
    j: int,
    key: spec_fn(int) -> Seq<char>,
)
    requires
        merging(a, b, out, i, j, key),
        i < a.len(),
        j < b.len() ==> !crate::text::text_before(key(b[j]), key(a[i])),
    ensures
        merging(a, b, out.push(a[i]), i + 1, j, key),
{
    let item = a[i];
    let after = out.push(item);
    crate::text::lemma_text_order(key(item), key(item));
    assert forall|m: int|
        #![trigger after[m]]
        0 <= m < after.len() && i + 1 < a.len() implies !crate::text::text_before(
        key(a[i + 1]),
        key(after[m]),
    ) by {
        if m < out.len() {
            assert(after[m] == out[m]);
            crate::text::lemma_not_before(key(out[m]), key(a[i]), key(a[i + 1]));
        }
    }
    assert forall|m: int|
        #![trigger after[m]]
        0 <= m < after.len() && j < b.len() implies !crate::text::text_before(
        key(b[j]),
        key(after[m]),
    ) by {
        if m < out.len() {
            assert(after[m] == out[m]);
        }
    }
    assert forall|m: int| 0 <= m < j && i + 1 < a.len() implies crate::text::text_before(
        key(#[trigger] b[m]),
        key(a[i + 1]),
    ) by {
        crate::text::lemma_not_before(key(b[m]), key(a[i]), key(a[i + 1]));
    }
    lemma_push_sorted(out, item, key);
    assert forall|k: Seq<char>| #[trigger]
        after.filter(with_key(key, k)) == a.take(i + 1).filter(with_key(key, k)) + b.take(
            j,
        ).filter(with_key(key, k)) by {
        let keep = with_key(key, k);
        lemma_filter_push(out, item, keep);
        assert(a.take(i + 1) == a.take(i).push(item));
        lemma_filter_push(a.take(i), item, keep);
        assert(out.filter(keep) == a.take(i).filter(keep) + b.take(j).filter(keep));
        if key(item) == k {
            let rest = b.take(j);
            assert forall|m: int| 0 <= m < rest.len() implies !keep(#[trigger] rest[m]) by {
                assert(rest[m] == b[m]);
                crate::text::lemma_not_before(key(b[m]), key(item), key(item));
            }
            lemma_filter_none(rest, keep);
            assert(after.filter(keep) == a.take(i + 1).filter(keep) + rest.filter(keep));
        }
    }
}

proof fn lemma_merge_right(
    a: Seq<int>,
    b: Seq<int>,
    out: Seq<int>,
    i: int,
    j: int,
    key: spec_fn(int) -> Seq<char>,
)
    requires
        merging(a, b, out, i, j, key),
        j < b.len(),
        i < a.len() ==> crate::text::text_before(key(b[j]), key(a[i])),
    ensures
        merging(a, b, out.push(b[j]), i, j + 1, key),
{
    let item = b[j];
    let after = out.push(item);
    crate::text::lemma_text_order(key(item), key(item));
    assert forall|m: int|
        #![trigger after[m]]
        0 <= m < after.len() && i < a.len() implies !crate::text::text_before(
        key(a[i]),
        key(after[m]),
    ) by {
        crate::text::lemma_not_before(key(item), key(a[i]), key(a[i]));
        if m < out.len() {
            assert(after[m] == out[m]);
        }
    }
    assert forall|m: int|
        #![trigger after[m]]
        0 <= m < after.len() && j + 1 < b.len() implies !crate::text::text_before(
        key(b[j + 1]),
        key(after[m]),
    ) by {
        if m < out.len() {
            assert(after[m] == out[m]);
            crate::text::lemma_not_before(key(out[m]), key(b[j]), key(b[j + 1]));
        }
    }
    lemma_push_sorted(out, item, key);
    assert forall|k: Seq<char>| #[trigger]
        after.filter(with_key(key, k)) == a.take(i).filter(with_key(key, k)) + b.take(
            j + 1,
        ).filter(with_key(key, k)) by {
        let keep = with_key(key, k);
        lemma_filter_push(out, item, keep);
        assert(b.take(j + 1) == b.take(j).push(item));
        lemma_filter_push(b.take(j), item, keep);
        assert(out.filter(keep) == a.take(i).filter(keep) + b.take(j).filter(keep));
        assert(after.filter(keep) == a.take(i).filter(keep) + b.take(j + 1).filter(keep));
    }
}

proof fn lemma_push_sorted(out: Seq<int>, item: int, key: spec_fn(int) -> Seq<char>)
    requires
        is_sorted(out, key),
        forall|m: int|
            0 <= m < out.len() ==> !crate::text::text_before(key(item), key(#[trigger] out[m])),
    ensures
        is_sorted(out.push(item), key),
{
    let after = out.push(item);
    assert forall|m: int, n: int| 0 <= m < n < after.len() implies !crate::text::text_before(
        key(#[trigger] after[n]),
        key(#[trigger] after[m]),
    ) by {
        assert(after[m] == out[m]);
        if n < out.len() {
            assert(after[n] == out[n]);
        }
    }
}

proof fn lemma_filter_none(items: Seq<int>, keep: spec_fn(int) -> bool)
    requires
        forall|m: int| 0 <= m < items.len() ==> !keep(#[trigger] items[m]),
    ensures
        items.filter(keep) == Seq::<int>::empty(),
    decreases items.len(),
{
    reveal(Seq::filter);
    if items.len() != 0 {
        lemma_filter_none(items.drop_last(), keep);
    }
}

/// Sorts the positions from `from` up to `to` by their keys.
fn sort_between(keys: &Vec<String>, from: usize, to: usize) -> (order: Vec<usize>)
    requires
        from <= to <= keys@.len(),
    ensures
        in_bounds(order@, keys@.len()),
        is_sorted(as_ints(order@), key_at(keys@)),
        same_for_each_key(as_ints(order@), positions(from as int, to as int), key_at(keys@)),
    decreases to - from,
{
    if to - from <= 1 {
        let mut order: Vec<usize> = Vec::new();
        if from < to {
            order.push(from);
        }
        assert(as_ints(order@) == positions(from as int, to as int));
        return order;
    }
    let middle: usize = from + (to - from) / 2;
    let left: Vec<usize> = sort_between(keys, from, middle);
    let right: Vec<usize> = sort_between(keys, middle, to);
    let ghost a = as_ints(left@);
    let ghost b = as_ints(right@);
    let order: Vec<usize> = merge(keys, left, right);
    proof {
        let key = key_at(keys@);
        let low = positions(from as int, middle as int);
        let high = positions(middle as int, to as int);
        assert(positions(from as int, to as int) == low + high);
        assert forall|k: Seq<char>| #[trigger]
            as_ints(order@).filter(with_key(key, k)) == positions(from as int, to as int).filter(
                with_key(key, k),
            ) by {
            let keep = with_key(key, k);
            assert(as_ints(order@).filter(keep) == (a + b).filter(keep));
            Seq::filter_distributes_over_add(a, b, keep);
            Seq::filter_distributes_over_add(low, high, keep);
            assert(a.filter(keep) == low.filter(keep));
            assert(b.filter(keep) == high.filter(keep));
        }
    }
    order
}

/// The positions of the keys, in the order of the keys; positions with the
/// same key keep their order.
pub fn sort_order(keys: &Vec<String>) -> (order: Vec<usize>)
    ensures
        as_ints(order@) == sorted_by(positions(0, keys@.len() as int), key_at(keys@)),
        in_bounds(order@, keys@.len()),
        order@.len() == keys@.len(),
{
    let order: Vec<usize> = sort_between(keys, 0, keys.len());
    proof {
        let key = key_at(keys@);
        let all = positions(0, keys@.len() as int);
        law_sorting_is_stable(all, key);
        assert forall|k: Seq<char>| #[trigger]
            as_ints(order@).filter(with_key(key, k)) == sorted_by(all, key).filter(
                with_key(key, k),
            ) by {
            assert(as_ints(order@).filter(with_key(key, k)) == all.filter(with_key(key, k)));
            assert(sorted_by(all, key).filter(with_key(key, k)) == all.filter(with_key(key, k)));
        }
        law_stable_order_is_unique(as_ints(order@), sorted_by(all, key), key);
        assert(as_ints(order@).len() == order@.len());
    }
    order
}

/// Sorting commutes with a map that keeps the keys.
pub proof fn lemma_sorted_map<A, B>(
    items: Seq<A>,
    f: spec_fn(A) -> B,
    key: spec_fn(A) -> Seq<char>,
    mapped_key: spec_fn(B) -> Seq<char>,
)
    requires
        forall|i: int| 0 <= i < items.len() ==> mapped_key(f(#[trigger] items[i])) == key(items[i]),
    ensures
        sorted_by(items.map_values(f), mapped_key) == sorted_by(items, key).map_values(f),
    decreases items.len(),
{
    if items.len() == 0 {
        assert(items.map_values(f) == Seq::<B>::empty());
        assert(sorted_by(items, key).map_values(f) == Seq::<B>::empty());
    } else {
        let front = items.drop_last();
        lemma_sorted_map(front, f, key, mapped_key);
        assert(items.map_values(f).drop_last() == front.map_values(f));
        assert(items.map_values(f).last() == f(items.last()));
        let sorted = sorted_by(front, key);
        lemma_sorted_items(front, key);
        assert forall|i: int| 0 <= i < sorted.len() implies mapped_key(f(#[trigger] sorted[i]))
            == key(sorted[i]) by {
            assert(sorted.contains(sorted[i]));
            let k = choose|k: int| 0 <= k < front.len() && front[k] == sorted[i];
            assert(items[k] == sorted[i]);
        }
        assert(items[items.len() - 1] == items.last());
        lemma_inserted_map(sorted, items.last(), f, key, mapped_key);
    }
}

proof fn lemma_inserted_map<A, B>(
    sorted: Seq<A>,
    item: A,
    f: spec_fn(A) -> B,
    key: spec_fn(A) -> Seq<char>,
    mapped_key: spec_fn(B) -> Seq<char>,
)
    requires
        forall|i: int| 0 <= i < sorted.len() ==> mapped_key(f(#[trigger] sorted[i])) == key(
            sorted[i],
        ),
        mapped_key(f(item)) == key(item),
    ensures
        inserted(sorted.map_values(f), f(item), mapped_key) == inserted(
            sorted,
            item,
            key,
        ).map_values(f),
    decreases sorted.len(),
{
    let mapped = sorted.map_values(f);
    if sorted.len() == 0 {
        assert(sorted.push(item).map_values(f) == mapped.push(f(item)));
    } else {
        assert(sorted[sorted.len() - 1] == sorted.last());
        assert(mapped.last() == f(sorted.last()));
        if crate::text::text_before(key(item), key(sorted.last())) {
            let front = sorted.drop_last();
            assert forall|i: int| 0 <= i < front.len() implies mapped_key(f(#[trigger] front[i]))
                == key(front[i]) by {
                assert(front[i] == sorted[i]);
            }
            lemma_inserted_map(front, item, f, key, mapped_key);
            assert(mapped.drop_last() == front.map_values(f));
            assert(inserted(front, item, key).push(sorted.last()).map_values(f) == inserted(
                front,
                item,
                key,
            ).map_values(f).push(f(sorted.last())));
        } else {
            assert(sorted.push(item).map_values(f) == mapped.push(f(item)));
        }
    }
}

/// Sorted items are among the items.
proof fn lemma_sorted_items<A>(items: Seq<A>, key: spec_fn(A) -> Seq<char>)
    ensures
        forall|i: int|
            0 <= i < sorted_by(items, key).len() ==> items.contains(
                #[trigger] sorted_by(items, key)[i],
            ),
    decreases items.len(),
{
    if items.len() != 0 {
        let front = items.drop_last();
        let last = items.last();
        lemma_sorted_items(front, key);
        law_sorting_is_stable(front, key);
        let sorted = sorted_by(front, key);
        lemma_inserted_sorted(sorted, last, key);
        assert forall|i: int| 0 <= i < sorted_by(items, key).len() implies items.contains(
            #[trigger] sorted_by(items, key)[i],
        ) by {
            let item = inserted(sorted, last, key)[i];
            if item == last {
                assert(items[items.len() - 1] == item);
            } else {
                let k = choose|k: int| 0 <= k < sorted.len() && sorted[k] == item;
                assert(front.contains(sorted[k]));
                let m = choose|m: int| 0 <= m < front.len() && front[m] == item;
                assert(items[m] == item);
            }
        }
    }
}

/// Sorting neither loses nor adds anything.
pub proof fn law_sorting_keeps_the_items<A>(items: Seq<A>, key: spec_fn(A) -> Seq<char>, item: A)
    ensures
        sorted_by(items, key).contains(item) <==> items.contains(item),
        sorted_by(items, key).len() == items.len(),
{
    law_sorting_is_stable(items, key);
    let sorted = sorted_by(items, key);
    let keep = with_key(key, key(item));
    assert(sorted.filter(keep) == items.filter(keep));
    if sorted.contains(item) {
        let i = choose|i: int| 0 <= i < sorted.len() && sorted[i] == item;
        sorted.lemma_filter_contains(keep, i);
        items.lemma_filter_contains_rev(keep, item);
    }
    if items.contains(item) {
        let i = choose|i: int| 0 <= i < items.len() && items[i] == item;
        items.lemma_filter_contains(keep, i);
        sorted.lemma_filter_contains_rev(keep, item);
    }
}

} // verus!
