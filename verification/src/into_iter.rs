//! The owning drain iterator: it takes a container's buffer over and hands
//! the elements out by value, from the front and from the back.

use crate::buffer::{contents, live_range, Buffer};
use crate::model::{after_taking, taken, End};
use vstd::prelude::*;

verus! {

/// An iterator that owns the elements it has not handed out yet. They stand
/// in the slots `[start, end)` of the buffer; every other slot is empty.
pub struct IntoIter<T> {
    buf: Buffer<T>,
    start: usize,
    end: usize,
}

impl<T> View for IntoIter<T> {
    type V = Seq<T>;

    /// The elements still to come, front first.
    closed spec fn view(&self) -> Seq<T> {
        contents(self.buf@, self.start as int, self.end as int)
    }
}

impl<T> IntoIter<T> {
    #[verifier::type_invariant]
    spec fn inv(self) -> bool {
        live_range(self.buf@, self.start as int, self.end as int)
    }

    /// The number of slots of the buffer that the iterator holds.
    pub closed spec fn capacity(&self) -> nat {
        self.buf@.len()
    }

    /// An iterator over the elements in the first `len` slots of `buf`.
    pub(crate) fn new(buf: Buffer<T>, len: usize) -> (iter: IntoIter<T>)
        requires
            live_range(buf@, 0, len as int),
        ensures
            iter@ == contents(buf@, 0, len as int),
            iter.capacity() == buf@.len(),
    {
        IntoIter { buf, start: 0, end: len }
    }

    /// Moves buffer and cursors out and leaves an exhausted iterator without
    /// a buffer behind.
    fn take_parts(&mut self) -> (parts: (Buffer<T>, usize, usize))
        ensures
            final(self)@ == Seq::<T>::empty(),
            final(self).capacity() == 0,
            live_range(parts.0@, parts.1 as int, parts.2 as int),
            old(self)@ == contents(parts.0@, parts.1 as int, parts.2 as int),
            old(self)@.len() == parts.2 - parts.1,
            old(self).capacity() == parts.0@.len(),
    {
        let mut whole = IntoIter { buf: Buffer::new(), start: 0, end: 0 };
        core::mem::swap(self, &mut whole);
        proof {
            use_type_invariant(&whole);
        }
        (whole.buf, whole.start, whole.end)
    }

    /// Hands out the first of the remaining elements; `None` when none remains.
    pub fn next(&mut self) -> (elem: Option<T>)
        ensures
            elem == taken(old(self)@, End::Front),
            final(self)@ == after_taking(old(self)@, End::Front),
            final(self).capacity() == old(self).capacity(),
    {
        proof {
            use_type_invariant(&*self);
        }
        if self.start == self.end {
            None
        } else {
            let (mut buf, start, end) = self.take_parts();
            let elem = buf.read(start);
            *self = IntoIter { buf, start: start + 1, end };
            Some(elem)
        }
    }

    /// Hands out the last of the remaining elements; `None` when none remains.
    pub fn next_back(&mut self) -> (elem: Option<T>)
        ensures
            elem == taken(old(self)@, End::Back),
            final(self)@ == after_taking(old(self)@, End::Back),
            final(self).capacity() == old(self).capacity(),
    {
        proof {
            use_type_invariant(&*self);
        }
        if self.start == self.end {
            None
        } else {
            let (mut buf, start, end) = self.take_parts();
            let elem = buf.read(end - 1);
            *self = IntoIter { buf, start, end: end - 1 };
            Some(elem)
        }
    }
}

} // verus!
