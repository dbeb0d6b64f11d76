use vstd::prelude::*;

use crate::composed::Composed;
use crate::iter::IterPipe;
use crate::util::{Bypass, Connector, Enumerate, Lazy, Optional};

verus! {

/// A single-step transformation unit.
///
/// Every call of `next` consumes one input item and produces one output item.
/// A pipe may hold private state and change it on each call, so two calls
/// with equal inputs need not return equal outputs.
///
/// The behaviour of a pipe is given by two relations on its states:
/// `steps_to` for `next` and `resets_to` for `reset`. Each call is permitted
/// only where `accepts` (respectively `can_reset`) holds.
pub trait Pipe {
    /// The type of input this pipe accepts.
    type InputItem;
    /// The type of output this pipe produces.
    type OutputItem;

    /// Whether `next` may be called with `item` on the pipe in this state.
    spec fn accepts(&self, item: Self::InputItem) -> bool;

    /// Whether one call of `next` with `item` may return `out` and leave
    /// the pipe in state `after`.
    spec fn steps_to(&self, item: Self::InputItem, after: &Self, out: Self::OutputItem) -> bool;

    /// Whether `reset` may be called on the pipe in this state. A pipe that
    /// cannot be rewound never allows it.
    spec fn can_reset(&self) -> bool;

    /// Whether `reset` may leave the pipe in state `after`: the state it had
    /// before its first call of `next`.
    spec fn resets_to(&self, after: &Self) -> bool;

    /// Calculate the next output item from an input item.
    fn next(&mut self, item: Self::InputItem) -> (out: Self::OutputItem)
        requires
            (*old(self)).accepts(item),
        ensures
            (*old(self)).steps_to(item, &*final(self), out),
    ;

    /// Restore the state the pipe had before its first call of `next`.
    fn reset(&mut self)
        requires
            (*old(self)).can_reset(),
        ensures
            (*old(self)).resets_to(&*final(self)),
    ;
}

/// The empty pipe: it takes `()` and returns `()`.
impl Pipe for () {
    type InputItem = ();
    type OutputItem = ();

    open spec fn accepts(&self, item: ()) -> bool {
        true
    }

    open spec fn steps_to(&self, item: (), after: &(), out: ()) -> bool {
        true
    }

    open spec fn can_reset(&self) -> bool {
        true
    }

    open spec fn resets_to(&self, after: &()) -> bool {
        true
    }

    fn next(&mut self, item: ()) {
    }

    fn reset(&mut self) {
    }
}

/// Two pipes side by side: each one gets its own part of the input pair.
impl<P0: Pipe, P1: Pipe> Pipe for (P0, P1) {
    type InputItem = (P0::InputItem, P1::InputItem);
    type OutputItem = (P0::OutputItem, P1::OutputItem);

    open spec fn accepts(&self, item: (P0::InputItem, P1::InputItem)) -> bool {
        self.0.accepts(item.0) && self.1.accepts(item.1)
    }

    open spec fn steps_to(
        &self,
        item: (P0::InputItem, P1::InputItem),
        after: &Self,
        out: (P0::OutputItem, P1::OutputItem),
    ) -> bool {
        &&& self.0.steps_to(item.0, &after.0, out.0)
        &&& self.1.steps_to(item.1, &after.1, out.1)
    }

    open spec fn can_reset(&self) -> bool {
        self.0.can_reset() && self.1.can_reset()
    }

    open spec fn resets_to(&self, after: &Self) -> bool {
        self.0.resets_to(&after.0) && self.1.resets_to(&after.1)
    }

    fn next(&mut self, item: (P0::InputItem, P1::InputItem)) -> (out: (
        P0::OutputItem,
        P1::OutputItem,
    )) {
        let (p0_input, p1_input) = item;
        let o0 = self.0.next(p0_input);
        let o1 = self.1.next(p1_input);
        (o0, o1)
    }

    fn reset(&mut self) {
        self.0.reset();
        self.1.reset();
    }
}

/// A borrowed pipe is a pipe: calls go to the pipe it points to.
impl<'a, P: Pipe> Pipe for &'a mut P {
    type InputItem = P::InputItem;
    type OutputItem = P::OutputItem;

    open spec fn accepts(&self, item: P::InputItem) -> bool {
        (**self).accepts(item)
    }

    open spec fn steps_to(&self, item: P::InputItem, after: &Self, out: P::OutputItem) -> bool {
        (**self).steps_to(item, &**after, out)
    }

    open spec fn can_reset(&self) -> bool {
        (**self).can_reset()
    }

    open spec fn resets_to(&self, after: &Self) -> bool {
        (**self).resets_to(&**after)
    }

    fn next(&mut self, item: P::InputItem) -> (out: P::OutputItem) {
        (**self).next(item)
    }

    fn reset(&mut self) {
        (**self).reset();
    }
}

/// A boxed pipe is a pipe: calls go to the pipe in the box.
impl<P: Pipe> Pipe for Box<P> {
    type InputItem = P::InputItem;
    type OutputItem = P::OutputItem;

    open spec fn accepts(&self, item: P::InputItem) -> bool {
        (**self).accepts(item)
    }

    open spec fn steps_to(&self, item: P::InputItem, after: &Self, out: P::OutputItem) -> bool {
        (**self).steps_to(item, &**after, out)
    }

    open spec fn can_reset(&self) -> bool {
        (**self).can_reset()
    }

    open spec fn resets_to(&self, after: &Self) -> bool {
        (**self).resets_to(&**after)
    }

    fn next(&mut self, item: P::InputItem) -> (out: P::OutputItem) {
        (**self).next(item)
    }

    fn reset(&mut self) {
        (**self).reset();
    }
}

/// Builders that wrap a pipe into the combinators of this crate.
///
/// Every pipe has them: `use` this trait to call them as methods.
pub trait PipeExt: Pipe + Sized {
    /// Create a bypassed version of the pipe: it returns a clone of each
    /// input item together with the output item.
    fn bypass(self) -> (r: Bypass<Self>)
        where
            Self::InputItem: Clone,
        ensures
            r.inner() == self,
    {
        Bypass::new(self)
    }

    /// Connect two pipes: the output item of `self` is the input item of
    /// `other`.
    fn connect<O: Pipe<InputItem = Self::OutputItem>>(self, other: O) -> (r: Connector<Self, O>)
        ensures
            r.first() == self,
            r.second() == other,
    {
        Connector::new(self, other)
    }

    /// Create a composable pipe, which connects to the next pipe with `>>`.
    fn compose(self) -> (r: Composed<Self>)
        ensures
            r.inner() == self,
    {
        Composed::new(self)
    }

    /// Wrap a pipe that takes `()` into an iterator-like adapter.
    fn into_iter(self) -> (r: IterPipe<Self>)
        where
            Self::InputItem: Default,
            Self: Pipe<InputItem = ()>,
        ensures
            r.inner() == self,
    {
        IterPipe::new(self)
    }

    /// Adapt the input item type: each input item is mapped by `f` before
    /// it reaches the pipe.
    fn pre_map<I, F>(self, f: F) -> (r: Connector<Lazy<I, Self::InputItem, F>, Self>)
        where
            F: Fn(I) -> Self::InputItem,
        ensures
            r.first().function() == f,
            r.second() == self,
    {
        Connector::new(Lazy::new(f), self)
    }

    /// Adapt the output item type: each output item of the pipe is mapped
    /// by `f`.
    fn post_map<O, F>(self, f: F) -> (r: Connector<Self, Lazy<Self::OutputItem, O, F>>)
        where
            F: Fn(Self::OutputItem) -> O,
        ensures
            r.first() == self,
            r.second().function() == f,
    {
        Connector::new(self, Lazy::new(f))
    }

    /// Lift the pipe to optional items: `None` passes through without
    /// calling the pipe.
    fn optional(self) -> (r: Optional<Self>)
        ensures
            r.inner() == self,
    {
        Optional::new(self)
    }

    /// Pair every output item with the number of calls made before it.
    fn enumerate(self) -> (r: Enumerate<Self>)
        ensures
            r.inner() == self,
            r.index() == 0,
    {
        Enumerate::new(self)
    }

    /// Move the pipe to the heap. The box is a pipe too.
    fn boxed(self) -> (r: Box<Self>)
        ensures
            *r == self,
    {
        Box::new(self)
    }
}

impl<P: Pipe> PipeExt for P {
}

/// Whether `states`, `inputs` and `outputs` record a run of successive calls
/// of `next`: the `i`-th call is fed `inputs[i]` on `states[i]`, returns
/// `outputs[i]` and leaves `states[i + 1]`.
pub open spec fn is_run<P: Pipe>(
    states: Seq<P>,
    inputs: Seq<P::InputItem>,
    outputs: Seq<P::OutputItem>,
) -> bool {
    &&& states.len() == inputs.len() + 1
    &&& outputs.len() == inputs.len()
    &&& forall|i: int|
        0 <= i < inputs.len() ==> {
            &&& #[trigger] states[i].accepts(inputs[i])
            &&& states[i].steps_to(inputs[i], &states[i + 1], outputs[i])
        }
}

/// Whether driving `pipe` with `inputs`, one call of `next` per item, may
/// return `outputs`.
pub open spec fn drives<P: Pipe>(
    pipe: P,
    inputs: Seq<P::InputItem>,
    outputs: Seq<P::OutputItem>,
) -> bool {
    exists|states: Seq<P>| #[trigger] is_run(states, inputs, outputs) && states[0] == pipe
}

} // verus!
