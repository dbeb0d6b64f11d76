use vstd::prelude::*;

use crate::pipe::Pipe;

verus! {

/// A pipe that yields the elements of a slice, one per call, and `None`
/// after the last one. A reset starts again at the first element.
pub struct SliceProducer<'a, T> {
    slice: &'a [T],
    index: usize,
}

impl<'a, T> SliceProducer<'a, T> {
    /// The elements of the slice.
    pub closed spec fn items(&self) -> Seq<T> {
        self.slice@
    }

    /// The index of the next element to yield.
    pub closed spec fn position(&self) -> nat {
        self.index as nat
    }

    /// Create a new producer over `slice`.
    pub fn new(slice: &'a [T]) -> (r: Self)
        ensures
            r.items() == slice@,
            r.position() == 0,
    {
        SliceProducer { slice, index: 0 }
    }
}

impl<'a, T> Pipe for SliceProducer<'a, T> {
    type InputItem = ();
    type OutputItem = Option<&'a T>;

    open spec fn accepts(&self, item: ()) -> bool {
        true
    }

    /// The next element, if one is left, and the position moves past it;
    /// otherwise `None`, and the pipe stays as it is.
    open spec fn steps_to(&self, item: (), after: &Self, out: Option<&'a T>) -> bool {
        &&& after.items() == self.items()
        &&& if self.position() < self.items().len() {
            out == Some(&self.items()[self.position() as int]) && after.position() == self.position() + 1
        } else {
            out is None && after.position() == self.position()
        }
    }

    open spec fn can_reset(&self) -> bool {
        true
    }

    open spec fn resets_to(&self, after: &Self) -> bool {
        after.items() == self.items() && after.position() == 0
    }

    fn next(&mut self, item: ()) -> (out: Option<&'a T>) {
        if self.index < self.slice.len() {
            let value = &self.slice[self.index];
            self.index = self.index + 1;
            Some(value)
        } else {
            None
        }
    }

    fn reset(&mut self) {
        self.index = 0;
    }
}

/// A pipe that hands out mutable references to the elements of a slice, one
/// per call, and `None` after the last one. References that were handed out
/// cannot be taken back, so this pipe allows no reset.
pub struct SliceProducerMut<'a, T> {
    rest: &'a mut [T],
}

impl<'a, T> SliceProducerMut<'a, T> {
    /// The elements not handed out yet.
    pub closed spec fn remaining(&self) -> Seq<T> {
        self.rest@
    }

    /// The borrow of the part of the caller's slice not handed out yet.
    pub closed spec fn buffer(&self) -> &'a mut [T] {
        self.rest
    }

    /// Once the producer is done, the part of the caller's slice that was
    /// not handed out holds the producer's remaining elements.
    pub proof fn lemma_resolved(self)
        requires
            has_resolved(self),
        ensures
            final(self.buffer())@ == self.remaining(),
    {
    }

    /// Create a new producer over `slice`.
    pub fn new(slice: &'a mut [T]) -> (r: Self)
        ensures
            r.remaining() == old(slice)@,
            final(r.buffer())@ == final(slice)@,
    {
        SliceProducerMut { rest: slice }
    }
}

impl<'a, T> Pipe for SliceProducerMut<'a, T> {
    type InputItem = ();
    type OutputItem = Option<&'a mut T>;

    open spec fn accepts(&self, item: ()) -> bool {
        true
    }

    /// A reference to the next element, if one is left; otherwise `None`.
    open spec fn steps_to(&self, item: (), after: &Self, out: Option<&'a mut T>) -> bool {
        if self.remaining().len() > 0 {
            &&& out is Some
            &&& *(out->0) == self.remaining()[0]
            &&& after.remaining() == self.remaining().drop_first()
        } else {
            out is None && after.remaining().len() == 0
        }
    }

    open spec fn can_reset(&self) -> bool {
        false
    }

    open spec fn resets_to(&self, after: &Self) -> bool {
        false
    }

    /// A returned reference points into the caller's slice: its final value
    /// is the final value of that element.
    fn next(&mut self, item: ()) -> (out: Option<&'a mut T>)
        ensures
            match out {
                Some(r) => final(old(self).buffer())@ == seq![*final(r)] + final(final(self).buffer())@,
                None => final(old(self).buffer())@ == old(self).remaining(),
            },
    {
        let mut rest: &'a mut [T] = &mut [];
        core::mem::swap(&mut self.rest, &mut rest);
        if rest.len() == 0 {
            None
        } else {
            let (head, tail) = rest.split_at_mut(1);
            self.rest = tail;
            head.first_mut()
        }
    }

    /// Stops the program: references that were handed out cannot be taken
    /// back.
    fn reset(&mut self) {
        vstd::pervasive::unreached()
    }
}

/// What a [`SliceConsumer`] reports for an item.
#[derive(PartialEq, Eq, Debug, Structural)]
pub enum ConsumeResult {
    /// The item was written and room remains.
    Written,
    /// The item was written into the last free slot.
    LastItem,
    /// The slice was already full; the item was discarded.
    Full,
}

/// A pipe that writes each item into the next free slot of a slice.
pub struct SliceConsumer<'a, T> {
    slice: &'a mut [T],
    index: usize,
}

impl<'a, T> SliceConsumer<'a, T> {
    /// The present contents of the slice.
    pub closed spec fn contents(&self) -> Seq<T> {
        self.slice@
    }

    /// The borrow of the caller's slice that the consumer writes through.
    pub closed spec fn buffer(&self) -> &'a mut [T] {
        self.slice
    }

    /// The index of the next free slot.
    pub closed spec fn position(&self) -> nat {
        self.index as nat
    }

    /// Once the consumer is done with the caller's slice, the slice holds
    /// the consumer's present contents.
    pub proof fn lemma_resolved(self)
        requires
            has_resolved(self),
        ensures
            final(self.buffer())@ == self.contents(),
    {
    }

    /// Create a new consumer that writes into `slice` from its start.
    pub fn new(slice: &'a mut [T]) -> (r: Self)
        ensures
            r.contents() == old(slice)@,
            final(r.buffer())@ == final(slice)@,
            r.position() == 0,
    {
        SliceConsumer { slice, index: 0 }
    }
}

impl<'a, T> Pipe for SliceConsumer<'a, T> {
    type InputItem = T;
    type OutputItem = ConsumeResult;

    open spec fn accepts(&self, item: T) -> bool {
        true
    }

    /// Where a free slot is left, the item is written into it and the
    /// position moves past it; the result tells whether that slot was the
    /// last one. Otherwise nothing changes and the result is `Full`.
    open spec fn steps_to(&self, item: T, after: &Self, out: ConsumeResult) -> bool {
        if self.position() < self.contents().len() {
            &&& after.contents() == self.contents().update(self.position() as int, item)
            &&& after.position() == self.position() + 1
            &&& out == if after.position() == self.contents().len() {
                ConsumeResult::LastItem
            } else {
                ConsumeResult::Written
            }
        } else {
            &&& after.contents() == self.contents()
            &&& after.position() == self.position()
            &&& out == ConsumeResult::Full
        }
    }

    open spec fn can_reset(&self) -> bool {
        true
    }

    /// Writing starts again at the first slot; the contents stay.
    open spec fn resets_to(&self, after: &Self) -> bool {
        after.contents() == self.contents() && after.position() == 0
    }

    /// The writes land in the caller's slice: the borrow keeps the final
    /// value it had.
    fn next(&mut self, item: T) -> (out: ConsumeResult)
        ensures
            final(final(self).buffer())@ == final(old(self).buffer())@,
    {
        if self.index < self.slice.len() {
            self.slice[self.index] = item;
            self.index = self.index + 1;
            if self.index == self.slice.len() {
                ConsumeResult::LastItem
            } else {
                ConsumeResult::Written
            }
        } else {
            ConsumeResult::Full
        }
    }

    fn reset(&mut self) {
        self.index = 0;
    }
}

} // verus!
