use vstd::prelude::*;

use crate::pipe::Pipe;
use crate::util::Connector;

verus! {

/// A composable pipe whose input and output item types are named in its
/// own type: `Compose<I, O, P>` only exists where `P` takes `I` and returns
/// `O`. A type annotation on it checks, at compile time, the item types at
/// each point of a chain built with `>>`.
#[verifier::reject_recursive_types(I)]
#[verifier::reject_recursive_types(O)]
pub struct Compose<I, O, P> where P: Pipe<InputItem = I, OutputItem = O> {
    pipe: P,
    item: core::marker::PhantomData<(I, O)>,
}

impl<I, O, P> Compose<I, O, P> where P: Pipe<InputItem = I, OutputItem = O> {
    /// The wrapped pipe.
    pub closed spec fn inner(&self) -> P {
        self.pipe
    }

    /// The composable pipe of `pipe`, as a value.
    pub closed spec fn wrapped(pipe: P) -> Self {
        Compose { pipe, item: core::marker::PhantomData }
    }

    /// A composable pipe is its inner pipe, wrapped, and nothing else.
    pub proof fn lemma_wrapped(self, pipe: P)
        ensures
            Self::wrapped(pipe).inner() == pipe,
            self == Self::wrapped(self.inner()),
    {
    }

    /// Create a new composable pipe.
    pub fn new(pipe: P) -> (r: Self)
        ensures
            r == Self::wrapped(pipe),
            r.inner() == pipe,
    {
        Compose { pipe, item: core::marker::PhantomData }
    }
}

impl<I, O, P> Pipe for Compose<I, O, P> where P: Pipe<InputItem = I, OutputItem = O> {
    type InputItem = I;
    type OutputItem = O;

    open spec fn accepts(&self, item: I) -> bool {
        self.inner().accepts(item)
    }

    open spec fn steps_to(&self, item: I, after: &Self, out: O) -> bool {
        self.inner().steps_to(item, &after.inner(), out)
    }

    open spec fn can_reset(&self) -> bool {
        self.inner().can_reset()
    }

    open spec fn resets_to(&self, after: &Self) -> bool {
        self.inner().resets_to(&after.inner())
    }

    fn next(&mut self, item: I) -> (out: O) {
        self.pipe.next(item)
    }

    fn reset(&mut self) {
        self.pipe.reset();
    }
}

impl<I, M, P0, P1> std::ops::Shr<P1> for Compose<I, M, P0> where P0: Pipe<InputItem = I, OutputItem = M>, P1: Pipe<InputItem = M> {
    type Output = Compose<I, P1::OutputItem, Connector<P0, P1>>;

    fn shr(self, other: P1) -> (r: Compose<I, P1::OutputItem, Connector<P0, P1>>) {
        Compose::new(Connector::new(self.pipe, other))
    }
}

impl<I, M, P0, P1> vstd::std_specs::ops::ShrSpecImpl<P1> for Compose<I, M, P0> where P0: Pipe<InputItem = I, OutputItem = M>, P1: Pipe<InputItem = M> {
    open spec fn obeys_shr_spec() -> bool {
        true
    }

    open spec fn shr_req(self, other: P1) -> bool {
        true
    }

    /// `a >> b` wraps the connector of `a`'s pipe and `b`.
    open spec fn shr_spec(self, other: P1) -> Compose<I, P1::OutputItem, Connector<P0, P1>> {
        Compose::wrapped(Connector::joined(self.inner(), other))
    }
}

} // verus!
