use vstd::pervasive::cloned;
use vstd::prelude::*;
use vstd::std_specs::ops::AddSpec;

use crate::pipe::Pipe;

verus! {

/// A pipe that connects two pipes: the output item of the first one is the
/// input item of the second one.
pub struct Connector<P0, P1> where P0: Pipe, P1: Pipe<InputItem = P0::OutputItem> {
    pipe0: P0,
    pipe1: P1,
}

impl<P0, P1> Connector<P0, P1> where P0: Pipe, P1: Pipe<InputItem = P0::OutputItem> {
    /// The pipe that is fed first.
    pub closed spec fn first(&self) -> P0 {
        self.pipe0
    }

    /// The pipe that is fed the first pipe's output.
    pub closed spec fn second(&self) -> P1 {
        self.pipe1
    }

    /// The connector of the two pipes, as a value.
    pub closed spec fn joined(pipe0: P0, pipe1: P1) -> Self {
        Connector { pipe0, pipe1 }
    }

    /// A connector is made of its two parts, and nothing else.
    pub proof fn lemma_parts(self, pipe0: P0, pipe1: P1)
        ensures
            Self::joined(pipe0, pipe1).first() == pipe0,
            Self::joined(pipe0, pipe1).second() == pipe1,
            self == Self::joined(self.first(), self.second()),
    {
    }

    /// Create a new connector of the two pipes.
    pub fn new(pipe0: P0, pipe1: P1) -> (r: Self)
        ensures
            r == Self::joined(pipe0, pipe1),
            r.first() == pipe0,
            r.second() == pipe1,
    {
        Connector { pipe0, pipe1 }
    }
}

impl<P0, P1> Pipe for Connector<P0, P1> where P0: Pipe, P1: Pipe<InputItem = P0::OutputItem> {
    type InputItem = P0::InputItem;
    type OutputItem = P1::OutputItem;

    /// The first pipe accepts the item, and the second one accepts every
    /// item that the first one may return for it.
    open spec fn accepts(&self, item: P0::InputItem) -> bool {
        &&& self.first().accepts(item)
        &&& forall|after0: P0, mid: P0::OutputItem|
            #[trigger] self.first().steps_to(item, &after0, mid) ==> self.second().accepts(mid)
    }

    open spec fn steps_to(&self, item: P0::InputItem, after: &Self, out: P1::OutputItem) -> bool {
        exists|mid: P0::OutputItem|
            {
                &&& #[trigger] self.first().steps_to(item, &after.first(), mid)
                &&& self.second().steps_to(mid, &after.second(), out)
            }
    }

    open spec fn can_reset(&self) -> bool {
        self.first().can_reset() && self.second().can_reset()
    }

    open spec fn resets_to(&self, after: &Self) -> bool {
        self.first().resets_to(&after.first()) && self.second().resets_to(&after.second())
    }

    fn next(&mut self, item: P0::InputItem) -> (out: P1::OutputItem) {
        let mid = self.pipe0.next(item);
        let out = self.pipe1.next(mid);
        assert(old(self).first().steps_to(item, &final(self).first(), mid));
        out
    }

    fn reset(&mut self) {
        self.pipe0.reset();
        self.pipe1.reset();
    }
}

/// A pipe that returns a clone of each input item together with the output
/// item of the pipe it wraps.
pub struct Bypass<P> where P: Pipe, P::InputItem: Clone {
    pipe: P,
}

impl<P> Bypass<P> where P: Pipe, P::InputItem: Clone {
    /// The wrapped pipe.
    pub closed spec fn inner(&self) -> P {
        self.pipe
    }

    /// Create a new bypassed pipe.
    pub fn new(pipe: P) -> (r: Self)
        ensures
            r.inner() == pipe,
    {
        Bypass { pipe }
    }
}

impl<P> Pipe for Bypass<P> where P: Pipe, P::InputItem: Clone {
    type InputItem = P::InputItem;
    type OutputItem = (P::InputItem, P::OutputItem);

    open spec fn accepts(&self, item: P::InputItem) -> bool {
        self.inner().accepts(item)
    }

    /// The first part of the output is a clone of the input item; the second
    /// is what the wrapped pipe returns for it.
    open spec fn steps_to(
        &self,
        item: P::InputItem,
        after: &Self,
        out: (P::InputItem, P::OutputItem),
    ) -> bool {
        &&& cloned(item, out.0)
        &&& self.inner().steps_to(item, &after.inner(), out.1)
    }

    open spec fn can_reset(&self) -> bool {
        self.inner().can_reset()
    }

    open spec fn resets_to(&self, after: &Self) -> bool {
        self.inner().resets_to(&after.inner())
    }

    fn next(&mut self, item: P::InputItem) -> (out: (P::InputItem, P::OutputItem)) {
        let copy = item.clone();
        let out = self.pipe.next(item);
        (copy, out)
    }

    fn reset(&mut self) {
        self.pipe.reset();
    }
}

/// A pipe that lifts another pipe to optional items. `None` is passed on
/// without calling the wrapped pipe.
pub struct Optional<P> where P: Pipe {
    pipe: P,
}

impl<P: Pipe> Optional<P> {
    /// The wrapped pipe.
    pub closed spec fn inner(&self) -> P {
        self.pipe
    }

    /// Create a new optional pipe.
    pub fn new(pipe: P) -> (r: Self)
        ensures
            r.inner() == pipe,
    {
        Optional { pipe }
    }
}

impl<P: Pipe> Pipe for Optional<P> {
    type InputItem = Option<P::InputItem>;
    type OutputItem = Option<P::OutputItem>;

    open spec fn accepts(&self, item: Option<P::InputItem>) -> bool {
        match item {
            Some(x) => self.inner().accepts(x),
            None => true,
        }
    }

    /// `None` gives `None` and leaves the wrapped pipe as it was; `Some(x)`
    /// gives `Some` of what the wrapped pipe returns for `x`.
    open spec fn steps_to(
        &self,
        item: Option<P::InputItem>,
        after: &Self,
        out: Option<P::OutputItem>,
    ) -> bool {
        match item {
            Some(x) => out is Some && self.inner().steps_to(x, &after.inner(), out->0),
            None => out is None && after.inner() == self.inner(),
        }
    }

    open spec fn can_reset(&self) -> bool {
        self.inner().can_reset()
    }

    open spec fn resets_to(&self, after: &Self) -> bool {
        self.inner().resets_to(&after.inner())
    }

    fn next(&mut self, item: Option<P::InputItem>) -> (out: Option<P::OutputItem>) {
        match item {
            Some(x) => Some(self.pipe.next(x)),
            None => None,
        }
    }

    fn reset(&mut self) {
        self.pipe.reset();
    }
}

/// A pipe that pairs each output item of another pipe with its index: the
/// number of calls made before it since creation or the last reset.
///
/// The index is a `usize` that wraps around to zero after `usize::MAX`.
pub struct Enumerate<P> where P: Pipe {
    pipe: P,
    progress: usize,
}

/// The index that follows `i`, wrapping around after `usize::MAX`.
pub open spec fn next_index(i: usize) -> usize {
    if i == usize::MAX {
        0
    } else {
        (i + 1) as usize
    }
}

impl<P: Pipe> Enumerate<P> {
    /// The wrapped pipe.
    pub closed spec fn inner(&self) -> P {
        self.pipe
    }

    /// The index of the next output item.
    pub closed spec fn index(&self) -> usize {
        self.progress
    }

    /// Create a new enumerating pipe; its first index is zero.
    pub fn new(pipe: P) -> (r: Self)
        ensures
            r.inner() == pipe,
            r.index() == 0,
    {
        Enumerate { pipe, progress: 0 }
    }
}

impl<P: Pipe> Pipe for Enumerate<P> {
    type InputItem = P::InputItem;
    type OutputItem = (usize, P::OutputItem);

    open spec fn accepts(&self, item: P::InputItem) -> bool {
        self.inner().accepts(item)
    }

    open spec fn steps_to(&self, item: P::InputItem, after: &Self, out: (usize, P::OutputItem)) -> bool {
        &&& out.0 == self.index()
        &&& self.inner().steps_to(item, &after.inner(), out.1)
        &&& after.index() == next_index(self.index())
    }

    open spec fn can_reset(&self) -> bool {
        self.inner().can_reset()
    }

    open spec fn resets_to(&self, after: &Self) -> bool {
        self.inner().resets_to(&after.inner()) && after.index() == 0
    }

    fn next(&mut self, item: P::InputItem) -> (out: (usize, P::OutputItem)) {
        let next_item = self.pipe.next(item);
        let index = self.progress;
        if self.progress == usize::MAX {
            self.progress = 0;
        } else {
            self.progress = self.progress + 1;
        }
        (index, next_item)
    }

    fn reset(&mut self) {
        self.pipe.reset();
        self.progress = 0;
    }
}

/// A pipe defined by a callable object that may change its own state, such as
/// a closure. Such a state cannot be rewound, so this pipe allows no reset.
#[verifier::reject_recursive_types(I)]
#[verifier::reject_recursive_types(O)]
#[verifier::reject_recursive_types(F)]
pub struct LazyMut<I, O, F> where F: FnMut(I) -> O {
    function: F,
    input: core::marker::PhantomData<I>,
    output: core::marker::PhantomData<O>,
}

impl<I, O, F> LazyMut<I, O, F> where F: FnMut(I) -> O {
    /// The callable object.
    pub closed spec fn function(&self) -> F {
        self.function
    }

    /// Create a new lazy pipe.
    pub fn new(function: F) -> (r: Self)
        ensures
            r.function() == function,
    {
        LazyMut { function, input: core::marker::PhantomData, output: core::marker::PhantomData }
    }
}

impl<I, O, F> Pipe for LazyMut<I, O, F> where F: FnMut(I) -> O {
    type InputItem = I;
    type OutputItem = O;

    open spec fn accepts(&self, item: I) -> bool {
        call_requires(self.function(), (item,))
    }

    open spec fn steps_to(&self, item: I, after: &Self, out: O) -> bool {
        call_ensures(self.function(), (item,), out)
    }

    open spec fn can_reset(&self) -> bool {
        false
    }

    open spec fn resets_to(&self, after: &Self) -> bool {
        false
    }

    fn next(&mut self, item: I) -> (out: O) {
        (self.function)(item)
    }

    /// Stops the program: the state of the callable object cannot be rewound.
    fn reset(&mut self) {
        vstd::pervasive::unreached()
    }
}

/// A pipe defined by a callable object without mutable state, such as a
/// closure that only reads what it captured. Resetting it changes nothing.
#[verifier::reject_recursive_types(I)]
#[verifier::reject_recursive_types(O)]
#[verifier::reject_recursive_types(F)]
pub struct Lazy<I, O, F> where F: Fn(I) -> O {
    function: F,
    input: core::marker::PhantomData<I>,
    output: core::marker::PhantomData<O>,
}

impl<I, O, F> Lazy<I, O, F> where F: Fn(I) -> O {
    /// The callable object.
    pub closed spec fn function(&self) -> F {
        self.function
    }

    /// Create a new lazy pipe.
    pub fn new(function: F) -> (r: Self)
        ensures
            r.function() == function,
    {
        Lazy { function, input: core::marker::PhantomData, output: core::marker::PhantomData }
    }
}

impl<I, O, F> Pipe for Lazy<I, O, F> where F: Fn(I) -> O {
    type InputItem = I;
    type OutputItem = O;

    open spec fn accepts(&self, item: I) -> bool {
        call_requires(self.function(), (item,))
    }

    /// The output is a result of the callable object for the item; the pipe
    /// stays as it was.
    open spec fn steps_to(&self, item: I, after: &Self, out: O) -> bool {
        call_ensures(self.function(), (item,), out) && after.function() == self.function()
    }

    open spec fn can_reset(&self) -> bool {
        true
    }

    open spec fn resets_to(&self, after: &Self) -> bool {
        after.function() == self.function()
    }

    fn next(&mut self, item: I) -> (out: O) {
        (self.function)(item)
    }

    fn reset(&mut self) {
    }
}

/// A continuous counter: each call returns the counter's value and then adds
/// the step to it. The counter remembers its starting value and can be reset
/// to it.
#[verifier::reject_recursive_types(T)]
pub struct Counter<T> where T: core::ops::Add<Output = T> + Copy {
    starting_value: T,
    delta: T,
    counter: T,
}

impl<T> Counter<T> where T: core::ops::Add<Output = T> + Copy {
    /// The value that the first call returns.
    pub closed spec fn start(&self) -> T {
        self.starting_value
    }

    /// The amount added on each call.
    pub closed spec fn step(&self) -> T {
        self.delta
    }

    /// The value that the next call returns.
    pub closed spec fn current(&self) -> T {
        self.counter
    }

    /// Create a counter that starts at `starting_value` and adds `delta` on
    /// each call.
    pub fn new(starting_value: T, delta: T) -> (r: Self)
        ensures
            r.start() == starting_value,
            r.step() == delta,
            r.current() == starting_value,
    {
        Counter { starting_value, delta, counter: starting_value }
    }
}

impl<T> Pipe for Counter<T> where T: core::ops::Add<Output = T> + Copy {
    type InputItem = ();
    type OutputItem = T;

    /// The addition of the step is defined (for an integer type: it does not
    /// overflow).
    open spec fn accepts(&self, item: ()) -> bool {
        self.current().add_req(self.step())
    }

    open spec fn steps_to(&self, item: (), after: &Self, out: T) -> bool {
        &&& out == self.current()
        &&& after.start() == self.start()
        &&& after.step() == self.step()
        &&& T::obeys_add_spec() ==> after.current() == self.current().add_spec(self.step())
    }

    open spec fn can_reset(&self) -> bool {
        true
    }

    open spec fn resets_to(&self, after: &Self) -> bool {
        &&& after.start() == self.start()
        &&& after.step() == self.step()
        &&& after.current() == self.start()
    }

    fn next(&mut self, item: ()) -> (out: T) {
        let item = self.counter;
        self.counter = self.counter + self.delta;
        item
    }

    fn reset(&mut self) {
        self.counter = self.starting_value;
    }
}

} // verus!
