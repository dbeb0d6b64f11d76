use vstd::prelude::*;

use crate::pipe::Pipe;
use crate::util::Connector;

verus! {

/// A composable pipe: a pipe that can be connected to the next one with
/// `>>`.
///
/// `a.compose() >> b >> c` is the pipe that feeds `a`'s output to `b` and
/// `b`'s output to `c`.
pub struct Composed<P> where P: Pipe {
    pipe: P,
}

impl<P> Composed<P> where P: Pipe {
    /// The wrapped pipe.
    pub closed spec fn inner(&self) -> P {
        self.pipe
    }

    /// The composable pipe of `pipe`, as a value.
    pub closed spec fn wrapped(pipe: P) -> Self {
        Composed { pipe }
    }

    /// A composable pipe is its inner pipe, wrapped, and nothing else.
    pub proof fn lemma_wrapped(self, pipe: P)
        ensures
            Self::wrapped(pipe).inner() == pipe,
            self == Self::wrapped(self.inner()),
    {
    }

    /// Create a new composable pipe.
    pub fn new(pipe: P) -> (r: Self)
        ensures
            r == Self::wrapped(pipe),
            r.inner() == pipe,
    {
        Composed { pipe }
    }

    /// Unwrap the inner pipe.
    pub fn unwrap(self) -> (r: P)
        ensures
            r == self.inner(),
    {
        self.pipe
    }
}

impl<P> Pipe for Composed<P> where P: Pipe {
    type InputItem = P::InputItem;
    type OutputItem = P::OutputItem;

    open spec fn accepts(&self, item: P::InputItem) -> bool {
        self.inner().accepts(item)
    }

    open spec fn steps_to(&self, item: P::InputItem, after: &Self, out: P::OutputItem) -> bool {
        self.inner().steps_to(item, &after.inner(), out)
    }

    open spec fn can_reset(&self) -> bool {
        self.inner().can_reset()
    }

    open spec fn resets_to(&self, after: &Self) -> bool {
        self.inner().resets_to(&after.inner())
    }

    fn next(&mut self, item: P::InputItem) -> (out: P::OutputItem) {
        self.pipe.next(item)
    }

    fn reset(&mut self) {
        self.pipe.reset();
    }
}

impl<P0, P1> std::ops::Shr<P1> for Composed<P0> where P0: Pipe, P1: Pipe<InputItem = P0::OutputItem> {
    type Output = Composed<Connector<P0, P1>>;

    fn shr(self, other: P1) -> (r: Composed<Connector<P0, P1>>) {
        Composed::new(Connector::new(self.pipe, other))
    }
}

impl<P0, P1> vstd::std_specs::ops::ShrSpecImpl<P1> for Composed<P0> where P0: Pipe, P1: Pipe<InputItem = P0::OutputItem> {
    open spec fn obeys_shr_spec() -> bool {
        true
    }

    open spec fn shr_req(self, other: P1) -> bool {
        true
    }

    /// `a >> b` wraps the connector of `a`'s pipe and `b`.
    open spec fn shr_spec(self, other: P1) -> Composed<Connector<P0, P1>> {
        Composed::wrapped(Connector::joined(self.inner(), other))
    }
}

} // verus!
