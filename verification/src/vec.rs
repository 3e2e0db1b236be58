//! The sequence container: a buffer and the number of its slots, counted
//! from the front, that hold a live element.

use crate::buffer::{contents, live_range, Buffer};
use crate::error::IndexOutOfBounds;
use crate::into_iter::IntoIter;
use crate::laws::lemma_growth_step;
use crate::model::{in_doubling_sequence, next_capacity, VecView};
use vstd::prelude::*;

verus! {

/// A growable sequence of `T`. The first `len` slots of the buffer hold the
/// elements, in order; the slots behind them are empty.
pub struct Vec<T> {
    buf: Buffer<T>,
    len: usize,
}

impl<T> View for Vec<T> {
    type V = VecView<T>;

    closed spec fn view(&self) -> VecView<T> {
        VecView { items: contents(self.buf@, 0, self.len as int), cap: self.buf@.len() }
    }
}

impl<T> Vec<T> {
    #[verifier::type_invariant]
    spec fn inv(self) -> bool {
        &&& live_range(self.buf@, 0, self.len as int)
        &&& in_doubling_sequence(self.buf@.len())
    }

    /// The empty container. It allocates nothing.
    pub fn new() -> (v: Vec<T>)
        ensures
            v@ == VecView::<T>::empty(),
            v@.wf(),
    {
        Vec { buf: Buffer::new(), len: 0 }
    }

    /// Moves buffer and length out and leaves the empty container behind, so
    /// that slots and length can be worked on one after the other.
    fn take_parts(&mut self) -> (parts: (Buffer<T>, usize))
        ensures
            final(self)@ == VecView::<T>::empty(),
            live_range(parts.0@, 0, parts.1 as int),
            in_doubling_sequence(parts.0@.len()),
            old(self)@.items == contents(parts.0@, 0, parts.1 as int),
            old(self)@.cap == parts.0@.len(),
    {
        let mut whole = Vec::new();
        core::mem::swap(self, &mut whole);
        proof {
            use_type_invariant(&whole);
        }
        (whole.buf, whole.len)
    }

    /// One growth step of the buffer: from no slot to one, from then on to
    /// twice as many. The elements are untouched.
    pub fn grow(&mut self)
        requires
            next_capacity(old(self)@.cap) <= usize::MAX,
        ensures
            final(self)@ == old(self)@.grow(),
            final(self)@.wf(),
    {
        let (mut buf, len) = self.take_parts();
        buf.grow();
        proof {
            lemma_growth_step(old(self)@.cap);
        }
        *self = Vec { buf, len };
    }

    /// Appends `elem` behind the last element, growing the buffer first when
    /// every slot is taken.
    pub fn push(&mut self, elem: T)
        requires
            old(self)@.cap_with_room() <= usize::MAX,
        ensures
            final(self)@ == old(self)@.push(elem),
            final(self)@.wf(),
    {
        if self.len() == self.capacity() {
            self.grow();
        }
        let (mut buf, len) = self.take_parts();
        buf.write(len, elem);
        *self = Vec { buf, len: len + 1 };
    }

    /// Removes the last element and hands it out; `None` when there is none.
    pub fn pop(&mut self) -> (elem: Option<T>)
        ensures
            elem == old(self)@.last(),
            final(self)@ == old(self)@.pop(),
            final(self)@.wf(),
    {
        if self.len() == 0 {
            None
        } else {
            let (mut buf, len) = self.take_parts();
            let elem = buf.read(len - 1);
            *self = Vec { buf, len: len - 1 };
            Some(elem)
        }
    }

    /// Places `elem` at `index` and moves what stood at `index` or behind it
    /// up by one, growing the buffer first when every slot is taken.
    /// An `index` beyond the length is refused and nothing changes.
    pub fn insert(&mut self, index: usize, elem: T) -> (done: Result<(), IndexOutOfBounds>)
        requires
            index <= old(self)@.len() ==> old(self)@.cap_with_room() <= usize::MAX,
        ensures
            index <= old(self)@.len() ==> done is Ok && final(self)@ == old(self)@.insert(
                index as int,
                elem,
            ),
            index > old(self)@.len() ==> final(self)@ == old(self)@ && done == Err::<
                (),
                IndexOutOfBounds,
            >(IndexOutOfBounds { index, len: old(self)@.len() as usize }),
            final(self)@.wf(),
    {
        let len: usize = self.len();
        if index > len {
            return Err(IndexOutOfBounds { index, len });
        }
        if len == self.capacity() {
            self.grow();
        }
        let (mut buf, len) = self.take_parts();
        buf.shift_up(index, len);
        buf.write(index, elem);
        *self = Vec { buf, len: len + 1 };
        Ok(())
    }

    /// Takes out the element at `index`, hands it out and moves what stood
    /// behind it down by one. An `index` that names no element is refused
    /// and nothing changes.
    pub fn remove(&mut self, index: usize) -> (taken: Result<T, IndexOutOfBounds>)
        ensures
            index < old(self)@.len() ==> taken == Ok::<T, IndexOutOfBounds>(
                old(self)@.items[index as int],
            ) && final(self)@ == old(self)@.remove(index as int),
            index >= old(self)@.len() ==> final(self)@ == old(self)@ && taken == Err::<
                T,
                IndexOutOfBounds,
            >(IndexOutOfBounds { index, len: old(self)@.len() as usize }),
            final(self)@.wf(),
    {
        let len: usize = self.len();
        if index >= len {
            return Err(IndexOutOfBounds { index, len });
        }
        let (mut buf, len) = self.take_parts();
        let elem = buf.read(index);
        buf.shift_down(index, len);
        *self = Vec { buf, len: len - 1 };
        Ok(elem)
    }

    /// The element at `index`, borrowed; `None` where `index` names none.
    pub fn get(&self, index: usize) -> (elem: Option<&T>)
        ensures
            index < self@.len() ==> elem == Some(&self@.items[index as int]),
            index >= self@.len() ==> elem is None,
    {
        proof {
            use_type_invariant(self);
        }
        self.buf.get(index)
    }

    /// The element at `index`, borrowed for writing; `None` where `index`
    /// names none. What the borrower leaves there is the element at `index`
    /// from then on; nothing else changes.
    pub fn get_mut(&mut self, index: usize) -> (elem: Option<&mut T>)
        ensures
            elem is Some <==> index < old(self)@.len(),
            elem matches Some(place) ==> *place == old(self)@.items[index as int]
                && final(self)@ == old(self)@.update(index as int, *final(place)),
            elem is None ==> final(self)@ == old(self)@,
            final(self)@.wf(),
    {
        proof {
            use_type_invariant(&*self);
        }
        self.buf.get_mut(index)
    }

    /// Turns the container into an iterator that owns the buffer and hands
    /// the elements out by value, from either end.
    pub fn into_iter(self) -> (iter: IntoIter<T>)
        ensures
            iter@ == self@.items,
            iter.capacity() == self@.cap,
    {
        proof {
            use_type_invariant(&self);
        }
        IntoIter::new(self.buf, self.len)
    }

    /// The number of live elements.
    pub fn len(&self) -> (len: usize)
        ensures
            len == self@.len(),
            self@.wf(),
    {
        proof {
            use_type_invariant(self);
        }
        self.len
    }

    /// The number of element slots currently allocated.
    pub fn capacity(&self) -> (cap: usize)
        ensures
            cap == self@.cap,
            self@.wf(),
    {
        proof {
            use_type_invariant(self);
        }
        self.buf.capacity()
    }
}

} // verus!
