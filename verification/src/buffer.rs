//! The buffer manager: one contiguous run of element slots.
//!
//! A slot either holds an element or is empty. The number of slots is the
//! capacity; it only changes in [`Buffer::grow`], by the doubling policy.
//! Elements enter and leave slots by move, so a slot that was read is empty
//! again and no element is ever held twice.

use crate::model::next_capacity;
use vstd::prelude::*;

verus! {

/// Exactly the slots in `[start, end)` hold an element.
pub open spec fn live_range<T>(slots: Seq<Option<T>>, start: int, end: int) -> bool {
    &&& 0 <= start <= end <= slots.len()
    &&& forall|i: int|
        0 <= i < slots.len() ==> ((#[trigger] slots[i]) is Some <==> start <= i < end)
}

/// The elements held by the slots in `[start, end)`, in slot order.
pub open spec fn contents<T>(slots: Seq<Option<T>>, start: int, end: int) -> Seq<T> {
    Seq::new((end - start) as nat, |i: int| slots[start + i]->0)
}

/// The slots after one growth step: the old ones unchanged, empty ones behind them.
pub open spec fn grown<T>(slots: Seq<Option<T>>) -> Seq<Option<T>> {
    slots + Seq::new((next_capacity(slots.len()) - slots.len()) as nat, |i: int| None::<T>)
}

/// The slots after what stood in `[from, to)` has moved up by one slot,
/// which leaves slot `from` empty.
pub open spec fn shifted_up<T>(slots: Seq<Option<T>>, from: int, to: int) -> Seq<Option<T>> {
    Seq::new(
        slots.len(),
        |i: int|
            if i == from {
                None
            } else if from < i <= to {
                slots[i - 1]
            } else {
                slots[i]
            },
    )
}

/// The slots after what stood in `[from + 1, to)` has moved down by one
/// slot, which leaves slot `to - 1` empty.
pub open spec fn shifted_down<T>(slots: Seq<Option<T>>, from: int, to: int) -> Seq<Option<T>> {
    Seq::new(
        slots.len(),
        |i: int|
            if from <= i < to - 1 {
                slots[i + 1]
            } else if i == to - 1 {
                None
            } else {
                slots[i]
            },
    )
}

/// An owned, contiguous run of element slots.
pub struct Buffer<T> {
    slots: std::vec::Vec<Option<T>>,
}

impl<T> View for Buffer<T> {
    type V = Seq<Option<T>>;

    closed spec fn view(&self) -> Seq<Option<T>> {
        self.slots@
    }
}

impl<T> Buffer<T> {
    /// A buffer without any slot; nothing is allocated for it.
    pub fn new() -> (buf: Self)
        ensures
            buf@ == Seq::<Option<T>>::empty(),
    {
        Buffer { slots: std::vec::Vec::new() }
    }

    /// The number of slots.
    pub fn capacity(&self) -> (cap: usize)
        ensures
            cap == self@.len(),
    {
        self.slots.len()
    }

    /// One growth step: a buffer without slots gets one, any other doubles.
    /// The slots that were there keep what they hold; the new ones are empty.
    pub fn grow(&mut self)
        requires
            next_capacity(old(self)@.len()) <= usize::MAX,
        ensures
            final(self)@ == grown(old(self)@),
    {
        let cap: usize = self.slots.len();
        let new_cap: usize = if cap == 0 {
            1
        } else {
            2 * cap
        };
        self.slots.reserve(new_cap - cap);
        while self.slots.len() < new_cap
            invariant
                cap == old(self)@.len(),
                new_cap == next_capacity(cap as nat),
                cap <= self.slots.len() <= new_cap,
                self@ == old(self)@ + Seq::new(
                    (self.slots.len() - cap) as nat,
                    |i: int| None::<T>,
                ),
            decreases new_cap - self.slots.len(),
        {
            self.slots.push(None);
        }
    }

    /// Moves `value` into the empty slot `index`.
    pub fn write(&mut self, index: usize, value: T)
        requires
            index < old(self)@.len(),
            old(self)@[index as int] is None,
        ensures
            final(self)@ == old(self)@.update(index as int, Some(value)),
    {
        self.slots[index] = Some(value);
    }

    /// Moves the element out of slot `index`, which is empty afterwards.
    pub fn read(&mut self, index: usize) -> (value: T)
        requires
            index < old(self)@.len(),
            old(self)@[index as int] is Some,
        ensures
            value == old(self)@[index as int]->0,
            final(self)@ == old(self)@.update(index as int, None),
    {
        let slot = self.slots[index].take();
        slot.unwrap()
    }

    /// The element in slot `index`, if the slot exists and holds one.
    pub fn get(&self, index: usize) -> (element: Option<&T>)
        ensures
            element is Some <==> index < self@.len() && self@[index as int] is Some,
            element is Some ==> self@[index as int] == Some(*element->0),
    {
        if index < self.slots.len() {
            self.slots[index].as_ref()
        } else {
            None
        }
    }

    /// The element in slot `index`, borrowed for writing, if the slot exists
    /// and holds one. The slot holds an element afterwards in any case.
    pub fn get_mut(&mut self, index: usize) -> (element: Option<&mut T>)
        ensures
            element is Some <==> index < old(self)@.len() && old(self)@[index as int] is Some,
            element matches Some(place) ==> old(self)@[index as int] == Some(*place)
                && final(self)@ == old(self)@.update(index as int, Some(*final(place))),
            element is None ==> final(self)@ == old(self)@,
        no_unwind
    {
        if index < self.slots.len() {
            match &mut self.slots[index] {
                Some(place) => Some(place),
                None => None,
            }
        } else {
            None
        }
    }

    /// Moves what stands in `[from, to)` up by one slot, last element first.
    /// Slot `to` has to be empty; afterwards slot `from` is.
    pub fn shift_up(&mut self, from: usize, to: usize)
        requires
            from <= to < old(self)@.len(),
            old(self)@[to as int] is None,
        ensures
            final(self)@ == shifted_up(old(self)@, from as int, to as int),
    {
        let mut i: usize = to;
        while i > from
            invariant
                from <= i <= to < self@.len(),
                self@.len() == old(self)@.len(),
                forall|j: int|
                    0 <= j < self@.len() ==> #[trigger] self@[j] == if j == i {
                        None
                    } else if i < j <= to {
                        old(self)@[j - 1]
                    } else {
                        old(self)@[j]
                    },
            decreases i - from,
        {
            let moved = self.slots[i - 1].take();
            self.slots[i] = moved;
            i -= 1;
        }
    }

    /// Moves what stands in `[from + 1, to)` down by one slot, first element
    /// first. Slot `from` has to be empty; afterwards slot `to - 1` is.
    pub fn shift_down(&mut self, from: usize, to: usize)
        requires
            from < to <= old(self)@.len(),
            old(self)@[from as int] is None,
        ensures
            final(self)@ == shifted_down(old(self)@, from as int, to as int),
    {
        let mut i: usize = from;
        while i + 1 < to
            invariant
                from <= i < to <= self@.len(),
                self@.len() == old(self)@.len(),
                forall|j: int|
                    0 <= j < self@.len() ==> #[trigger] self@[j] == if from <= j < i {
                        old(self)@[j + 1]
                    } else if j == i {
                        None
                    } else {
                        old(self)@[j]
                    },
            decreases to - i,
        {
            let moved = self.slots[i + 1].take();
            self.slots[i] = moved;
            i += 1;
        }
    }
}

} // verus!
