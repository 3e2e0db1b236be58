//! The mathematical model of the container: the live elements in order,
//! together with the number of slots that the backing buffer holds.

use vstd::arithmetic::power2::pow2;
use vstd::prelude::*;

verus! {

/// The capacity a buffer of `cap` slots has after one growth step:
/// the first step allocates a single slot, every later one doubles.
pub open spec fn next_capacity(cap: nat) -> nat {
    if cap == 0 {
        1
    } else {
        2 * cap
    }
}

/// The capacities that growth from an empty buffer can reach: 0, 1, 2, 4, 8, ...
pub open spec fn in_doubling_sequence(cap: nat) -> bool {
    cap == 0 || exists|e: nat| cap == pow2(e)
}

/// What a container is, abstractly: `items` are the live elements in index
/// order, `cap` is the number of element slots currently allocated.
#[verifier::ext_equal]
pub struct VecView<T> {
    pub items: Seq<T>,
    pub cap: nat,
}

impl<T> VecView<T> {
    /// The freshly created container: no element, no allocation.
    pub open spec fn empty() -> Self {
        VecView { items: Seq::empty(), cap: 0 }
    }

    /// The number of live elements.
    pub open spec fn len(self) -> nat {
        self.items.len()
    }

    /// Every live element has a slot, and the capacity was reached by doubling.
    pub open spec fn wf(self) -> bool {
        &&& self.items.len() <= self.cap
        &&& in_doubling_sequence(self.cap)
    }

    /// No slot is free.
    pub open spec fn is_full(self) -> bool {
        self.items.len() == self.cap
    }

    /// One growth step: the elements stay, the capacity moves on.
    pub open spec fn grow(self) -> Self {
        VecView { items: self.items, cap: next_capacity(self.cap) }
    }

    /// The capacity once room for one more element has been made:
    /// a full container grows by one step, any other keeps its buffer.
    pub open spec fn cap_with_room(self) -> nat {
        if self.is_full() {
            next_capacity(self.cap)
        } else {
            self.cap
        }
    }

    /// Appending `value` behind the last element.
    pub open spec fn push(self, value: T) -> Self {
        VecView { items: self.items.push(value), cap: self.cap_with_room() }
    }

    /// Appending each element of `values` in turn.
    pub open spec fn push_all(self, values: Seq<T>) -> Self
        decreases values.len(),
    {
        if values.len() == 0 {
            self
        } else {
            self.push_all(values.drop_last()).push(values.last())
        }
    }

    /// What removing the last element hands out: nothing when there is none.
    pub open spec fn last(self) -> Option<T> {
        if self.items.len() == 0 {
            None
        } else {
            Some(self.items.last())
        }
    }

    /// Removing the last element; an empty container stays as it is.
    pub open spec fn pop(self) -> Self {
        if self.items.len() == 0 {
            self
        } else {
            VecView { items: self.items.drop_last(), cap: self.cap }
        }
    }

    /// Placing `value` at `index`; what stood at `index` or behind it moves up by one.
    pub open spec fn insert(self, index: int, value: T) -> Self
        recommends
            0 <= index <= self.items.len(),
    {
        VecView { items: self.items.insert(index, value), cap: self.cap_with_room() }
    }

    /// Taking out the element at `index`; what stood behind it moves down by one.
    pub open spec fn remove(self, index: int) -> Self
        recommends
            0 <= index < self.items.len(),
    {
        VecView { items: self.items.remove(index), cap: self.cap }
    }

    /// Overwriting the element at `index`.
    pub open spec fn update(self, index: int, value: T) -> Self
        recommends
            0 <= index < self.items.len(),
    {
        VecView { items: self.items.update(index, value), cap: self.cap }
    }
}

/// The end of the remaining run from which a draining step takes.
pub enum End {
    Front,
    Back,
}

/// What a draining step at `end` hands out when `rest` is what remains:
/// the element at that end, and nothing once `rest` is exhausted.
pub open spec fn taken<T>(rest: Seq<T>, end: End) -> Option<T> {
    if rest.len() == 0 {
        None
    } else {
        Some(
            match end {
                End::Front => rest.first(),
                End::Back => rest.last(),
            },
        )
    }
}

/// What remains after a draining step at `end`: `rest` without the element
/// at that end. Exhaustion is final: nothing more is taken from an empty run.
pub open spec fn after_taking<T>(rest: Seq<T>, end: End) -> Seq<T> {
    if rest.len() == 0 {
        rest
    } else {
        match end {
            End::Front => rest.drop_first(),
            End::Back => rest.drop_last(),
        }
    }
}

/// What remains of `items` after one draining step at each of `ends`, in turn.
pub open spec fn remaining_after<T>(items: Seq<T>, ends: Seq<End>) -> Seq<T>
    decreases ends.len(),
{
    if ends.len() == 0 {
        items
    } else {
        after_taking(remaining_after(items, ends.drop_last()), ends.last())
    }
}

/// The elements that one draining step at each of `ends`, in turn, hands
/// out of `items`, in the order in which they come.
pub open spec fn yielded_by<T>(items: Seq<T>, ends: Seq<End>) -> Seq<T>
    decreases ends.len(),
{
    if ends.len() == 0 {
        Seq::empty()
    } else {
        let earlier = yielded_by(items, ends.drop_last());
        match taken(remaining_after(items, ends.drop_last()), ends.last()) {
            Some(elem) => earlier.push(elem),
            None => earlier,
        }
    }
}

} // verus!
