use vstd::prelude::*;

use vstd::std_specs::iter::IteratorSpec;

use crate::pipe::Pipe;

verus! {

/// A pipe that yields the elements of an iterator.
///
/// It takes `()` and returns the iterator's next element, or `None` once the
/// iterator is exhausted. After the first `None` it never calls the iterator
/// again and returns `None` on every call. An iterator cannot be rewound, so
/// this pipe allows no reset.
#[verifier::reject_recursive_types(I)]
pub struct PipeIter<I: Iterator> {
    iter: I,
    exhausted: bool,
}

impl<I: Iterator> PipeIter<I> {
    /// The wrapped iterator.
    pub closed spec fn iterator(&self) -> I {
        self.iter
    }

    /// Whether the pipe has returned `None`.
    pub closed spec fn is_exhausted(&self) -> bool {
        self.exhausted
    }

    /// Create a new pipe that yields the elements of `iter`.
    pub fn new(iter: I) -> (r: Self)
        ensures
            r.iterator() == iter,
            !r.is_exhausted(),
    {
        PipeIter { iter, exhausted: false }
    }
}

impl<I: Iterator> Pipe for PipeIter<I> {
    type InputItem = ();
    type OutputItem = Option<I::Item>;

    open spec fn accepts(&self, item: ()) -> bool {
        true
    }

    /// An exhausted pipe returns `None` and stays as it is; otherwise it
    /// becomes exhausted exactly when it returns `None`.
    open spec fn steps_to(&self, item: (), after: &Self, out: Option<I::Item>) -> bool {
        if self.is_exhausted() {
            out is None && after.is_exhausted() && after.iterator() == self.iterator()
        } else {
            after.is_exhausted() == (out is None)
        }
    }

    open spec fn can_reset(&self) -> bool {
        false
    }

    open spec fn resets_to(&self, after: &Self) -> bool {
        false
    }

    /// Where the pipe is not exhausted and the iterator obeys vstd's
    /// iterator laws, the output is the iterator's next element, or `None`
    /// when no element is left.
    fn next(&mut self, item: ()) -> (out: Option<I::Item>)
        ensures
            !old(self).is_exhausted() && old(self).iterator().obeys_prophetic_iter_laws() ==> {
                if old(self).iterator().remaining().len() > 0 {
                    &&& out == Some(old(self).iterator().remaining()[0])
                    &&& final(self).iterator().remaining() == old(self).iterator().remaining().drop_first()
                    &&& final(self).iterator().obeys_prophetic_iter_laws()
                } else {
                    out is None
                }
            },
    {
        if self.exhausted {
            None
        } else {
            let out = self.iter.next();
            if out.is_none() {
                self.exhausted = true;
            }
            out
        }
    }

    /// Stops the program: an iterator cannot be rewound.
    fn reset(&mut self) {
        vstd::pervasive::unreached()
    }
}

/// An iterator-like adapter that drives a pipe with default input items.
///
/// Each call of `next` creates the default value of the pipe's input item,
/// feeds it to the pipe and returns the pipe's optional output. `None` marks
/// the end of the sequence; later calls go on feeding the pipe.
pub struct IterPipe<P> where P: Pipe, P::InputItem: Default {
    pipe: P,
}

impl<P> IterPipe<P> where P: Pipe, P::InputItem: Default {
    /// The driven pipe.
    pub closed spec fn inner(&self) -> P {
        self.pipe
    }

    /// Create a new adapter that drives `pipe`.
    pub fn new(pipe: P) -> (r: Self)
        ensures
            r.inner() == pipe,
    {
        IterPipe { pipe }
    }
}

impl<O, P> IterPipe<P> where P: Pipe<OutputItem = Option<O>>, P::InputItem: Default {
    /// Feed the default input item to the pipe and return its output.
    pub fn next(&mut self) -> (out: Option<O>)
        requires
            forall|d: P::InputItem|
                call_ensures(<P::InputItem as Default>::default, (), d) ==> #[trigger] old(self).inner().accepts(d),
        ensures
            exists|d: P::InputItem|
                call_ensures(<P::InputItem as Default>::default, (), d) && #[trigger] old(self).inner().steps_to(
                    d,
                    &final(self).inner(),
                    out,
                ),
    {
        let input = <P::InputItem as Default>::default();
        assert(old(self).inner().accepts(input));
        let out = self.pipe.next(input);
        assert(old(self).inner().steps_to(input, &final(self).inner(), out));
        out
    }
}

} // verus!
