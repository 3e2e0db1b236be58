//! Laws of the container, stated over its model and proved once and for all.
//!
//! Every operation of [`crate::vec::Vec`] is specified as a function on
//! [`VecView`]; what is proved here of those functions therefore holds of
//! every container, in every state it can reach.

use crate::model::{
    after_taking, in_doubling_sequence, next_capacity, remaining_after, taken, yielded_by, End,
    VecView,
};
use vstd::arithmetic::power2::{lemma2_to64, lemma_pow2_unfold, pow2};
use vstd::multiset::lemma_multiset_empty_len;
use vstd::prelude::*;
use vstd::seq_lib::{to_multiset_build, to_multiset_remove};

verus! {

/// Where the element that stood at position `j` stands after an insertion
/// at `index`: in place before `index`, one further up from `index` on.
pub open spec fn position_after_insert(index: int, j: int) -> int {
    if j < index {
        j
    } else {
        j + 1
    }
}

/// Where the element that stood at position `j` stands after the removal of
/// the element at `index`: in place before `index`, one further down behind it.
pub open spec fn position_after_remove(index: int, j: int) -> int {
    if j < index {
        j
    } else {
        j - 1
    }
}

/// A growth step leads from one capacity of the doubling sequence to the
/// next, and that one is larger.
pub proof fn lemma_growth_step(cap: nat)
    requires
        in_doubling_sequence(cap),
    ensures
        in_doubling_sequence(next_capacity(cap)),
        next_capacity(cap) > cap,
{
    if cap == 0 {
        lemma2_to64();
        assert(next_capacity(cap) == pow2(0));
    } else {
        let e = choose|e: nat| cap == pow2(e);
        lemma_pow2_unfold(e + 1);
        assert(next_capacity(cap) == pow2(e + 1));
    }
}

/// The container's invariant survives every operation: the length never
/// exceeds the capacity, and the capacity stays in the doubling sequence
/// 0, 1, 2, 4, 8, ...
pub proof fn lemma_operations_preserve_wf<T>(s: VecView<T>, index: int, value: T)
    requires
        s.wf(),
    ensures
        VecView::<T>::empty().wf(),
        s.grow().wf(),
        s.push(value).wf(),
        s.pop().wf(),
        0 <= index <= s.len() ==> s.insert(index, value).wf(),
        0 <= index < s.len() ==> s.remove(index).wf(),
        0 <= index < s.len() ==> s.update(index, value).wf(),
{
    lemma_growth_step(s.cap);
}

/// The capacity never shrinks, whatever the operation, and a growth step
/// makes it larger.
pub proof fn lemma_capacity_never_shrinks<T>(s: VecView<T>, index: int, value: T)
    ensures
        s.grow().cap > s.cap,
        s.push(value).cap >= s.cap,
        s.pop().cap == s.cap,
        s.insert(index, value).cap >= s.cap,
        s.remove(index).cap == s.cap,
        s.update(index, value).cap == s.cap,
{
}

/// Appending a sequence of values, one after the other, puts exactly those
/// values behind the elements that were there, in the order of appending.
pub proof fn lemma_push_all_appends<T>(s: VecView<T>, values: Seq<T>)
    ensures
        s.push_all(values).items == s.items + values,
        s.push_all(values).len() == s.len() + values.len(),
        s.push_all(values).cap >= s.cap,
    decreases values.len(),
{
    if values.len() > 0 {
        lemma_push_all_appends(s, values.drop_last());
        assert(s.items + values =~= (s.items + values.drop_last()).push(values.last()));
    } else {
        assert(s.items + values =~= s.items);
    }
}

/// After `n` appends to the empty container the length is `n` and the
/// elements are the appended values in insertion order. The capacity is the
/// member of the doubling sequence that lies in `[n, 2n)`; it is 0 for `n == 0`.
pub proof fn lemma_appends_from_empty<T>(values: Seq<T>)
    ensures
        VecView::<T>::empty().push_all(values).items == values,
        VecView::<T>::empty().push_all(values).len() == values.len(),
        VecView::<T>::empty().push_all(values).wf(),
        VecView::<T>::empty().push_all(values).cap >= values.len(),
        values.len() == 0 ==> VecView::<T>::empty().push_all(values).cap == 0,
        values.len() > 0 ==> VecView::<T>::empty().push_all(values).cap < 2 * values.len(),
    decreases values.len(),
{
    let empty = VecView::<T>::empty();
    lemma_push_all_appends(empty, values);
    assert(empty.items + values =~= values);
    if values.len() > 0 {
        let before = empty.push_all(values.drop_last());
        lemma_appends_from_empty(values.drop_last());
        lemma_growth_step(before.cap);
    }
}

/// Removing the last element right after appending `value` hands `value`
/// back, takes the length down by exactly one and leaves the elements as
/// they were before the append.
pub proof fn lemma_push_then_pop<T>(s: VecView<T>, value: T)
    ensures
        s.push(value).last() == Some(value),
        s.push(value).pop().items == s.items,
        s.push(value).pop().len() == s.push(value).len() - 1,
        s.push(value).pop().cap == s.push(value).cap,
{
    assert(s.items.push(value).drop_last() =~= s.items);
}

/// Removing the last element of a container that has one takes the length
/// down by exactly one; an empty container stays as it is.
pub proof fn lemma_pop_length<T>(s: VecView<T>)
    ensures
        s.len() > 0 ==> s.pop().len() == s.len() - 1 && s.last() is Some,
        s.len() == 0 ==> s.pop() == s && s.last() is None,
{
}

/// Removing at `index` right after inserting `value` at `index` hands
/// `value` back and leaves the elements, and so the length, as they were
/// before the insertion.
pub proof fn lemma_insert_then_remove<T>(s: VecView<T>, index: int, value: T)
    requires
        0 <= index <= s.len(),
    ensures
        s.insert(index, value).len() == s.len() + 1,
        s.insert(index, value).items[index] == value,
        s.insert(index, value).remove(index).items == s.items,
        s.insert(index, value).remove(index).len() == s.len(),
{
    assert(s.items.insert(index, value).remove(index) =~= s.items);
}

/// An insertion keeps every other element, and keeps them in their order:
/// the element from position `j` is found at `position_after_insert(index, j)`,
/// and that map is strictly increasing.
pub proof fn lemma_insert_preserves_order<T>(s: VecView<T>, index: int, value: T)
    requires
        0 <= index <= s.len(),
    ensures
        forall|j: int|
            0 <= j < s.len() ==> s.insert(index, value).items[position_after_insert(index, j)]
                == #[trigger] s.items[j],
        forall|j: int, k: int|
            j < k ==> #[trigger] position_after_insert(index, j) < #[trigger] position_after_insert(
                index,
                k,
            ),
        forall|j: int| #[trigger] position_after_insert(index, j) != index,
{
}

/// A removal keeps every other element, and keeps them in their order: the
/// element from position `j != index` is found at
/// `position_after_remove(index, j)`, and that map is strictly increasing
/// on the positions other than `index`.
pub proof fn lemma_remove_preserves_order<T>(s: VecView<T>, index: int)
    requires
        0 <= index < s.len(),
    ensures
        s.remove(index).len() == s.len() - 1,
        forall|j: int|
            0 <= j < s.len() && j != index ==> s.remove(index).items[position_after_remove(
                index,
                j,
            )] == #[trigger] s.items[j],
        forall|j: int, k: int|
            j < k && j != index && k != index ==> #[trigger] position_after_remove(index, j)
                < #[trigger] position_after_remove(index, k),
{
}

/// Inserting at the position just behind the last element is appending:
/// elements and capacity come out the same.
pub proof fn lemma_insert_at_len_is_push<T>(s: VecView<T>, value: T)
    ensures
        s.insert(s.len() as int, value) == s.push(value),
{
    assert(s.items.insert(s.len() as int, value) =~= s.items.push(value));
}

/// A draining step hands out an element exactly when one remains, and what
/// remains afterwards is one element shorter; a step on an exhausted run
/// hands out nothing and changes nothing.
pub proof fn lemma_draining_step<T>(rest: Seq<T>, end: End)
    ensures
        taken(rest, end) is Some <==> rest.len() > 0,
        rest.len() > 0 ==> after_taking(rest, end).len() == rest.len() - 1,
        rest.len() == 0 ==> after_taking(rest, end) == rest,
        taken(rest, end) matches Some(elem) ==> rest.to_multiset() == after_taking(
            rest,
            end,
        ).to_multiset().insert(elem),
{
    if rest.len() > 0 {
        match end {
            End::Front => {
                assert(rest.drop_first() =~= rest.remove(0));
                to_multiset_remove(rest, 0);
            },
            End::Back => {
                assert(rest.drop_last() =~= rest.remove(rest.len() - 1));
                to_multiset_remove(rest, rest.len() - 1);
            },
        }
        let elem = taken(rest, end)->0;
        rest.to_multiset_ensures();
        assert(rest.to_multiset().count(elem) > 0);
        assert(rest.to_multiset() =~= rest.to_multiset().remove(elem).insert(elem));
    }
}

/// Draining from the two ends, in whatever order, hands out every element
/// exactly once: what was handed out and what remains make up the elements
/// the iterator started with, each as often as it occurred. Every step
/// hands out one element until none remains, so the iterator is exhausted
/// after exactly as many steps as it had elements, and not before.
pub proof fn lemma_drain_yields_each_element_once<T>(items: Seq<T>, ends: Seq<End>)
    ensures
        yielded_by(items, ends).len() + remaining_after(items, ends).len() == items.len(),
        ends.len() <= items.len() ==> yielded_by(items, ends).len() == ends.len(),
        ends.len() >= items.len() ==> yielded_by(items, ends).len() == items.len(),
        remaining_after(items, ends).len() == 0 <==> ends.len() >= items.len(),
        yielded_by(items, ends).to_multiset().add(remaining_after(items, ends).to_multiset())
            == items.to_multiset(),
    decreases ends.len(),
{
    if ends.len() == 0 {
        let none = Seq::<T>::empty();
        none.to_multiset_ensures();
        lemma_multiset_empty_len(none.to_multiset());
        assert(none.to_multiset().add(items.to_multiset()) =~= items.to_multiset());
    } else {
        let before = remaining_after(items, ends.drop_last());
        let earlier = yielded_by(items, ends.drop_last());
        lemma_drain_yields_each_element_once(items, ends.drop_last());
        lemma_draining_step(before, ends.last());
        if before.len() > 0 {
            let elem = taken(before, ends.last())->0;
            let rest = after_taking(before, ends.last());
            to_multiset_build(earlier, elem);
            assert(earlier.push(elem).to_multiset().add(rest.to_multiset())
                =~= earlier.to_multiset().add(rest.to_multiset().insert(elem)));
        }
    }
}

/// What remains while draining is always one unbroken run of the elements
/// the iterator started with, in their order: steps at the front take its
/// first elements, steps at the back its last ones, and nothing in between
/// is touched or reordered. The run starts at `from`, the number of
/// elements taken at the front.
pub proof fn lemma_drain_keeps_an_unbroken_run<T>(items: Seq<T>, ends: Seq<End>) -> (from: int)
    ensures
        0 <= from,
        from + remaining_after(items, ends).len() <= items.len(),
        remaining_after(items, ends) == items.subrange(
            from,
            from + remaining_after(items, ends).len(),
        ),
    decreases ends.len(),
{
    if ends.len() == 0 {
        assert(items =~= items.subrange(0, items.len() as int));
        0
    } else {
        let before = remaining_after(items, ends.drop_last());
        let rest = remaining_after(items, ends);
        let from = lemma_drain_keeps_an_unbroken_run(items, ends.drop_last());
        if before.len() > 0 && ends.last() is Front {
            assert(rest =~= items.subrange(from + 1, from + 1 + rest.len()));
            from + 1
        } else {
            assert(rest =~= items.subrange(from, from + rest.len()));
            from
        }
    }
}

/// Drained from the front only, the elements come in insertion order;
/// drained from the back only, in the reverse of it.
pub proof fn lemma_drain_one_end_only<T>(items: Seq<T>, n: nat)
    requires
        n <= items.len(),
    ensures
        yielded_by(items, Seq::new(n, |i: int| End::Front)) == items.subrange(0, n as int),
        remaining_after(items, Seq::new(n, |i: int| End::Front)) == items.subrange(
            n as int,
            items.len() as int,
        ),
        yielded_by(items, Seq::new(n, |i: int| End::Back)) == items.subrange(
            items.len() - n,
            items.len() as int,
        ).reverse(),
        remaining_after(items, Seq::new(n, |i: int| End::Back)) == items.subrange(
            0,
            items.len() - n,
        ),
    decreases n,
{
    let fronts = Seq::new(n, |i: int| End::Front);
    let backs = Seq::new(n, |i: int| End::Back);
    if n == 0 {
        assert(items.subrange(0, 0) =~= Seq::<T>::empty());
        assert(items.subrange(0, items.len() as int) =~= items);
        assert(items.subrange(items.len() as int, items.len() as int).reverse() =~= Seq::<
            T,
        >::empty());
    } else {
        let m = (n - 1) as nat;
        lemma_drain_one_end_only(items, m);
        assert(fronts.drop_last() =~= Seq::new(m, |i: int| End::Front));
        assert(backs.drop_last() =~= Seq::new(m, |i: int| End::Back));
        let len = items.len() as int;
        assert(items.subrange(m as int, len).drop_first() =~= items.subrange(n as int, len));
        assert(items.subrange(0, m as int).push(items[m as int]) =~= items.subrange(0, n as int));
        assert(items.subrange(0, len - m).drop_last() =~= items.subrange(0, len - n));
        assert(items.subrange(len - m, len).reverse().push(items[len - n]) =~= items.subrange(
            len - n,
            len,
        ).reverse());
    }
}

} // verus!
