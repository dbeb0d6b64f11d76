use vstd::prelude::*;

use crate::pipe::{drives, is_run, Pipe};
use crate::compose::Compose;
use crate::composed::Composed;
use crate::iter::PipeIter;
use crate::slice::{SliceProducer, SliceProducerMut};
use crate::util::{next_index, Bypass, Connector, Counter, Enumerate, Optional};
use vstd::pervasive::cloned;
use vstd::std_specs::ops::{AddSpec, ShrSpec};

verus! {

/// `(a, b) -> c` as a value: the connector of the connector of `a` and `b`
/// with `c`.
pub open spec fn left_nested<A, B, C>(a: A, b: B, c: C) -> Connector<Connector<A, B>, C> where
    A: Pipe,
    B: Pipe<InputItem = A::OutputItem>,
    C: Pipe<InputItem = B::OutputItem>,
 {
    Connector::joined(Connector::joined(a, b), c)
}

/// `a -> (b, c)` as a value: the connector of `a` with the connector of `b`
/// and `c`.
pub open spec fn right_nested<A, B, C>(a: A, b: B, c: C) -> Connector<A, Connector<B, C>> where
    A: Pipe,
    B: Pipe<InputItem = A::OutputItem>,
    C: Pipe<InputItem = B::OutputItem>,
 {
    Connector::joined(a, Connector::joined(b, c))
}

/// One call on the two nestings of three connected pipes: they accept the
/// same items, and they allow the same outputs and the same states of the
/// three pipes afterwards.
pub proof fn lemma_connector_step_associative<A, B, C>(
    a: A,
    b: B,
    c: C,
    a2: A,
    b2: B,
    c2: C,
    item: A::InputItem,
    out: C::OutputItem,
) where A: Pipe, B: Pipe<InputItem = A::OutputItem>, C: Pipe<InputItem = B::OutputItem>
    ensures
        left_nested(a, b, c).accepts(item) == right_nested(a, b, c).accepts(item),
        left_nested(a, b, c).steps_to(item, &left_nested(a2, b2, c2), out)
            == right_nested(a, b, c).steps_to(item, &right_nested(a2, b2, c2), out),
{
    let l = left_nested(a, b, c);
    let r = right_nested(a, b, c);
    let ab = Connector::<A, B>::joined(a, b);
    let bc = Connector::<B, C>::joined(b, c);
    ab.lemma_parts(a, b);
    bc.lemma_parts(b, c);
    l.lemma_parts(ab, c);
    r.lemma_parts(a, bc);
    Connector::<A, B>::joined(a2, b2).lemma_parts(a2, b2);
    Connector::<B, C>::joined(b2, c2).lemma_parts(b2, c2);
    Connector::<Connector<A, B>, C>::joined(Connector::joined(a2, b2), c2).lemma_parts(Connector::joined(a2, b2), c2);
    Connector::<A, Connector<B, C>>::joined(a2, Connector::joined(b2, c2)).lemma_parts(a2, Connector::joined(b2, c2));
    if l.accepts(item) {
        assert forall|a1: A, m0: A::OutputItem| #[trigger] a.steps_to(item, &a1, m0) implies bc.accepts(m0) by {
            assert(b.accepts(m0));
            assert forall|b1: B, m1: B::OutputItem| #[trigger] b.steps_to(m0, &b1, m1) implies c.accepts(m1) by {
                let ab1 = Connector::<A, B>::joined(a1, b1);
                ab1.lemma_parts(a1, b1);
                assert(ab.steps_to(item, &ab1, m1));
            }
        }
    }
    if r.accepts(item) {
        assert forall|ab1: Connector<A, B>, m1: B::OutputItem| #[trigger] ab.steps_to(item, &ab1, m1) implies c.accepts(m1) by {
            let m0 = choose|m0: A::OutputItem| #[trigger] a.steps_to(item, &ab1.first(), m0) && b.steps_to(m0, &ab1.second(), m1);
            assert(bc.accepts(m0));
        }
    }
    let l2 = left_nested(a2, b2, c2);
    let r2 = right_nested(a2, b2, c2);
    if l.steps_to(item, &l2, out) {
        let m1 = choose|m1: B::OutputItem| #[trigger] ab.steps_to(item, &l2.first(), m1) && c.steps_to(m1, &l2.second(), out);
        let m0 = choose|m0: A::OutputItem| #[trigger] a.steps_to(item, &a2, m0) && b.steps_to(m0, &b2, m1);
        assert(bc.steps_to(m0, &r2.second(), out));
        assert(r.steps_to(item, &r2, out));
    }
    if r.steps_to(item, &r2, out) {
        let m0 = choose|m0: A::OutputItem| #[trigger] a.steps_to(item, &r2.first(), m0) && bc.steps_to(m0, &r2.second(), out);
        let m1 = choose|m1: B::OutputItem| #[trigger] b.steps_to(m0, &b2, m1) && c.steps_to(m1, &c2, out);
        assert(ab.steps_to(item, &l2.first(), m1));
        assert(l.steps_to(item, &l2, out));
    }
}

/// A connector of connectors, taken apart and nested the other way.
pub open spec fn renested<A, B, C>(l: Connector<Connector<A, B>, C>) -> Connector<A, Connector<B, C>> where
    A: Pipe,
    B: Pipe<InputItem = A::OutputItem>,
    C: Pipe<InputItem = B::OutputItem>,
 {
    right_nested(l.first().first(), l.first().second(), l.second())
}

/// The inverse of `renested`.
pub open spec fn unnested<A, B, C>(r: Connector<A, Connector<B, C>>) -> Connector<Connector<A, B>, C> where
    A: Pipe,
    B: Pipe<InputItem = A::OutputItem>,
    C: Pipe<InputItem = B::OutputItem>,
 {
    left_nested(r.first(), r.second().first(), r.second().second())
}

proof fn lemma_left_parts<A, B, C>(l: Connector<Connector<A, B>, C>) where
    A: Pipe,
    B: Pipe<InputItem = A::OutputItem>,
    C: Pipe<InputItem = B::OutputItem>,

    ensures
        l == left_nested(l.first().first(), l.first().second(), l.second()),
{
    l.lemma_parts(l.first(), l.second());
    l.first().lemma_parts(l.first().first(), l.first().second());
}

proof fn lemma_right_parts<A, B, C>(r: Connector<A, Connector<B, C>>) where
    A: Pipe,
    B: Pipe<InputItem = A::OutputItem>,
    C: Pipe<InputItem = B::OutputItem>,

    ensures
        r == right_nested(r.first(), r.second().first(), r.second().second()),
{
    r.lemma_parts(r.first(), r.second());
    r.second().lemma_parts(r.second().first(), r.second().second());
}

/// Connecting is associative: driving `(a -> b) -> c` and `a -> (b -> c)`
/// with the same input items may return the same output items.
pub proof fn lemma_connector_associative<A, B, C>(
    a: A,
    b: B,
    c: C,
    inputs: Seq<A::InputItem>,
    outputs: Seq<C::OutputItem>,
) where A: Pipe, B: Pipe<InputItem = A::OutputItem>, C: Pipe<InputItem = B::OutputItem>
    ensures
        drives(left_nested(a, b, c), inputs, outputs) == drives(right_nested(a, b, c), inputs, outputs),
{
    let l = left_nested(a, b, c);
    let r = right_nested(a, b, c);
    let ab = Connector::<A, B>::joined(a, b);
    let bc = Connector::<B, C>::joined(b, c);
    ab.lemma_parts(a, b);
    bc.lemma_parts(b, c);
    l.lemma_parts(ab, c);
    r.lemma_parts(a, bc);
    if drives(l, inputs, outputs) {
        let ls = choose|states: Seq<Connector<Connector<A, B>, C>>| #[trigger] is_run(states, inputs, outputs) && states[0] == l;
        let rs = Seq::new(ls.len(), |i: int| renested(ls[i]));
        assert forall|i: int| 0 <= i < inputs.len() implies {
            &&& #[trigger] rs[i].accepts(inputs[i])
            &&& rs[i].steps_to(inputs[i], &rs[i + 1], outputs[i])
        } by {
            lemma_left_parts(ls[i]);
            lemma_left_parts(ls[i + 1]);
            assert(ls[i].accepts(inputs[i]));
            lemma_connector_step_associative(
                ls[i].first().first(),
                ls[i].first().second(),
                ls[i].second(),
                ls[i + 1].first().first(),
                ls[i + 1].first().second(),
                ls[i + 1].second(),
                inputs[i],
                outputs[i],
            );
        }
        assert(is_run(rs, inputs, outputs));
        assert(rs[0] == r);
    }
    if drives(r, inputs, outputs) {
        let rs = choose|states: Seq<Connector<A, Connector<B, C>>>| #[trigger] is_run(states, inputs, outputs) && states[0] == r;
        let ls = Seq::new(rs.len(), |i: int| unnested(rs[i]));
        assert forall|i: int| 0 <= i < inputs.len() implies {
            &&& #[trigger] ls[i].accepts(inputs[i])
            &&& ls[i].steps_to(inputs[i], &ls[i + 1], outputs[i])
        } by {
            lemma_right_parts(rs[i]);
            lemma_right_parts(rs[i + 1]);
            assert(rs[i].accepts(inputs[i]));
            lemma_connector_step_associative(
                rs[i].first(),
                rs[i].second().first(),
                rs[i].second().second(),
                rs[i + 1].first(),
                rs[i + 1].second().first(),
                rs[i + 1].second().second(),
                inputs[i],
                outputs[i],
            );
        }
        assert(is_run(ls, inputs, outputs));
        assert(ls[0] == l);
    }
}

proof fn lemma_optional_none_prefix<P: Pipe>(
    states: Seq<Optional<P>>,
    inputs: Seq<Option<P::InputItem>>,
    outputs: Seq<Option<P::OutputItem>>,
    k: int,
)
    requires
        is_run(states, inputs, outputs),
        forall|i: int| 0 <= i < inputs.len() ==> inputs[i] is None,
        0 <= k < states.len(),
    ensures
        states[k].inner() == states[0].inner(),
    decreases k,
{
    if k > 0 {
        lemma_optional_none_prefix(states, inputs, outputs, k - 1);
        assert(states[k - 1].accepts(inputs[k - 1]));
    }
}

/// An optional pipe that is fed only `None` returns only `None` and never
/// calls the pipe it wraps: along the whole run that pipe keeps the state it
/// had at the start.
pub proof fn lemma_optional_skips_none<P: Pipe>(
    states: Seq<Optional<P>>,
    inputs: Seq<Option<P::InputItem>>,
    outputs: Seq<Option<P::OutputItem>>,
)
    requires
        is_run(states, inputs, outputs),
        forall|i: int| 0 <= i < inputs.len() ==> inputs[i] is None,
    ensures
        forall|i: int| 0 <= i < states.len() ==> #[trigger] states[i].inner() == states[0].inner(),
        forall|i: int| 0 <= i < outputs.len() ==> #[trigger] outputs[i] is None,
{
    assert forall|i: int| 0 <= i < states.len() implies #[trigger] states[i].inner() == states[0].inner() by {
        lemma_optional_none_prefix(states, inputs, outputs, i);
    }
    assert forall|i: int| 0 <= i < outputs.len() implies #[trigger] outputs[i] is None by {
        assert(states[i].accepts(inputs[i]));
    }
}

/// A bypassed pipe returns the input item itself, where cloning the item
/// gives an equal value, together with what the wrapped pipe returns for the
/// item from the same state.
pub proof fn lemma_bypass_identity<P: Pipe>(
    pipe: Bypass<P>,
    item: P::InputItem,
    after: Bypass<P>,
    out: (P::InputItem, P::OutputItem),
) where P::InputItem: Clone
    requires
        pipe.steps_to(item, &after, out),
        forall|x: P::InputItem, y: P::InputItem| #[trigger] cloned(x, y) ==> x == y,
    ensures
        out.0 == item,
        pipe.inner().steps_to(item, &after.inner(), out.1),
{
    assert(cloned(item, out.0));
}

proof fn lemma_enumerate_index_at<P: Pipe>(
    states: Seq<Enumerate<P>>,
    inputs: Seq<P::InputItem>,
    outputs: Seq<(usize, P::OutputItem)>,
    k: int,
)
    requires
        is_run(states, inputs, outputs),
        states[0].index() == 0,
        0 <= k < states.len(),
        k <= usize::MAX,
    ensures
        states[k].index() == k,
    decreases k,
{
    if k > 0 {
        lemma_enumerate_index_at(states, inputs, outputs, k - 1);
        assert(states[k - 1].accepts(inputs[k - 1]));
        assert(next_index(states[k - 1].index()) == k);
    }
}

/// An enumerating pipe that starts at index zero returns the indices
/// `0, 1, 2, ...` in call order, whatever the wrapped pipe returns, as long
/// as the index has not wrapped around.
pub proof fn lemma_enumerate_indices<P: Pipe>(
    states: Seq<Enumerate<P>>,
    inputs: Seq<P::InputItem>,
    outputs: Seq<(usize, P::OutputItem)>,
)
    requires
        is_run(states, inputs, outputs),
        states[0].index() == 0,
        inputs.len() <= usize::MAX + 1,
    ensures
        forall|i: int| 0 <= i < outputs.len() ==> #[trigger] outputs[i].0 == i,
{
    assert forall|i: int| 0 <= i < outputs.len() implies #[trigger] outputs[i].0 == i by {
        lemma_enumerate_index_at(states, inputs, outputs, i);
        assert(states[i].accepts(inputs[i]));
    }
}

/// After a reset, the next call of an enumerating pipe returns index zero.
pub proof fn lemma_enumerate_reset<P: Pipe>(
    pipe: Enumerate<P>,
    reset: Enumerate<P>,
    item: P::InputItem,
    after: Enumerate<P>,
    out: (usize, P::OutputItem),
)
    requires
        pipe.resets_to(&reset),
        reset.steps_to(item, &after, out),
    ensures
        out.0 == 0,
{
}

proof fn lemma_counter_value_at(
    states: Seq<Counter<u64>>,
    inputs: Seq<()>,
    outputs: Seq<u64>,
    k: int,
)
    requires
        is_run(states, inputs, outputs),
        0 <= k < states.len(),
    ensures
        states[k].start() == states[0].start(),
        states[k].step() == states[0].step(),
        states[k].current() == states[0].current() + k * states[0].step(),
    decreases k,
{
    if k > 0 {
        lemma_counter_value_at(states, inputs, outputs, k - 1);
        assert(states[k - 1].accepts(inputs[k - 1]));
        assert(states[0].current() + (k - 1) * states[0].step() + states[0].step() == states[0].current() + k
            * states[0].step()) by (nonlinear_arith);
    }
}

/// The `i`-th call of a counter returns its value at the start plus `i`
/// times its step; after a reset, the next call returns the starting value.
pub proof fn lemma_counter_arithmetic(states: Seq<Counter<u64>>, inputs: Seq<()>, outputs: Seq<u64>)
    requires
        is_run(states, inputs, outputs),
    ensures
        forall|i: int|
            0 <= i < outputs.len() ==> #[trigger] outputs[i] == states[0].current() + i * states[0].step(),
        forall|r: Counter<u64>, after: Counter<u64>, out: u64|
            states[0].resets_to(&r) && #[trigger] r.steps_to((), &after, out) ==> out == states[0].start(),
{
    assert forall|i: int| 0 <= i < outputs.len() implies #[trigger] outputs[i] == states[0].current() + i
        * states[0].step() by {
        lemma_counter_value_at(states, inputs, outputs, i);
        assert(states[i].accepts(inputs[i]));
    }
}

proof fn lemma_counter_keeps_step<T>(states: Seq<Counter<T>>, inputs: Seq<()>, outputs: Seq<T>, k: int) where
    T: core::ops::Add<Output = T> + Copy,

    requires
        is_run(states, inputs, outputs),
        0 <= k < states.len(),
    ensures
        states[k].start() == states[0].start(),
        states[k].step() == states[0].step(),
    decreases k,
{
    if k > 0 {
        lemma_counter_keeps_step(states, inputs, outputs, k - 1);
        assert(states[k - 1].accepts(inputs[k - 1]));
    }
}

/// For any value type whose addition obeys its specification, a counter
/// first returns its present value, and each later call returns the
/// previous output plus the step: the `i`-th call returns the start value
/// plus `i` steps. After a reset, the next call returns the starting value.
pub proof fn lemma_counter_sequence<T>(states: Seq<Counter<T>>, inputs: Seq<()>, outputs: Seq<T>) where
    T: core::ops::Add<Output = T> + Copy,

    requires
        is_run(states, inputs, outputs),
        T::obeys_add_spec(),
    ensures
        outputs.len() > 0 ==> outputs[0] == states[0].current(),
        forall|i: int|
            0 <= i < outputs.len() - 1 ==> #[trigger] outputs[i + 1] == outputs[i].add_spec(
                states[0].step(),
            ),
        forall|r: Counter<T>, after: Counter<T>, out: T|
            states[0].resets_to(&r) && #[trigger] r.steps_to((), &after, out) ==> out == states[0].start(),
{
    if outputs.len() > 0 {
        assert(states[0].accepts(inputs[0]));
    }
    assert forall|i: int| 0 <= i < outputs.len() - 1 implies #[trigger] outputs[i + 1] == outputs[i].add_spec(
        states[0].step(),
    ) by {
        lemma_counter_keeps_step(states, inputs, outputs, i);
        assert(states[i].accepts(inputs[i]));
        assert(states[i + 1].accepts(inputs[i + 1]));
    }
}

proof fn lemma_slice_producer_stays_done<'a, T>(
    states: Seq<SliceProducer<'a, T>>,
    inputs: Seq<()>,
    outputs: Seq<Option<&'a T>>,
    k: int,
    j: int,
)
    requires
        is_run(states, inputs, outputs),
        0 <= k < outputs.len(),
        outputs[k] is None,
        k <= j < states.len(),
    ensures
        states[j].position() >= states[j].items().len(),
    decreases j - k,
{
    assert(states[k].accepts(inputs[k]));
    if j > k {
        lemma_slice_producer_stays_done(states, inputs, outputs, k, j - 1);
        assert(states[j - 1].accepts(inputs[j - 1]));
    }
}

/// Once a slice producer returns `None`, every later call returns `None`.
pub proof fn lemma_slice_producer_exhaustion<'a, T>(
    states: Seq<SliceProducer<'a, T>>,
    inputs: Seq<()>,
    outputs: Seq<Option<&'a T>>,
    k: int,
)
    requires
        is_run(states, inputs, outputs),
        0 <= k < outputs.len(),
        outputs[k] is None,
    ensures
        forall|i: int| k <= i < outputs.len() ==> #[trigger] outputs[i] is None,
{
    assert forall|i: int| k <= i < outputs.len() implies #[trigger] outputs[i] is None by {
        lemma_slice_producer_stays_done(states, inputs, outputs, k, i);
        assert(states[i].accepts(inputs[i]));
    }
}

proof fn lemma_slice_producer_mut_stays_done<'a, T>(
    states: Seq<SliceProducerMut<'a, T>>,
    inputs: Seq<()>,
    outputs: Seq<Option<&'a mut T>>,
    k: int,
    j: int,
)
    requires
        is_run(states, inputs, outputs),
        0 <= k < outputs.len(),
        outputs[k] is None,
        k <= j < states.len(),
    ensures
        states[j].remaining().len() == 0,
    decreases j - k,
{
    assert(0 <= k < inputs.len());
    assert(states[k].accepts(inputs[k]));
    if j > k {
        lemma_slice_producer_mut_stays_done(states, inputs, outputs, k, j - 1);
        assert(states[j - 1].accepts(inputs[j - 1]));
    }
}

/// Once a producer of mutable references returns `None`, every later call
/// returns `None`.
pub proof fn lemma_slice_producer_mut_exhaustion<'a, T>(
    states: Seq<SliceProducerMut<'a, T>>,
    inputs: Seq<()>,
    outputs: Seq<Option<&'a mut T>>,
    k: int,
)
    requires
        is_run(states, inputs, outputs),
        0 <= k < outputs.len(),
        outputs[k] is None,
    ensures
        forall|i: int| k <= i < outputs.len() ==> #[trigger] outputs[i] is None,
{
    assert forall|i: int| k <= i < outputs.len() implies #[trigger] outputs[i] is None by {
        lemma_slice_producer_mut_stays_done(states, inputs, outputs, k, i);
        assert(states[i].accepts(inputs[i]));
    }
}

proof fn lemma_pipe_iter_stays_done<I: Iterator>(
    states: Seq<PipeIter<I>>,
    inputs: Seq<()>,
    outputs: Seq<Option<I::Item>>,
    k: int,
    j: int,
)
    requires
        is_run(states, inputs, outputs),
        0 <= k < outputs.len(),
        outputs[k] is None,
        k < j < states.len(),
    ensures
        states[j].is_exhausted(),
    decreases j - k,
{
    assert(0 <= k < inputs.len());
    assert(states[k].accepts(inputs[k]));
    assert(states[k].steps_to(inputs[k], &states[k + 1], outputs[k]));
    if j > k + 1 {
        lemma_pipe_iter_stays_done(states, inputs, outputs, k, j - 1);
        assert(states[j - 1].accepts(inputs[j - 1]));
        assert(states[j - 1].steps_to(inputs[j - 1], &states[j], outputs[j - 1]));
    }
}

/// Once an iterator pipe returns `None`, every later call returns `None`,
/// whatever the iterator would yield.
pub proof fn lemma_pipe_iter_exhaustion<I: Iterator>(
    states: Seq<PipeIter<I>>,
    inputs: Seq<()>,
    outputs: Seq<Option<I::Item>>,
    k: int,
)
    requires
        is_run(states, inputs, outputs),
        0 <= k < outputs.len(),
        outputs[k] is None,
    ensures
        forall|i: int| k <= i < outputs.len() ==> #[trigger] outputs[i] is None,
{
    assert forall|i: int| k <= i < outputs.len() implies #[trigger] outputs[i] is None by {
        if i > k {
            lemma_pipe_iter_stays_done(states, inputs, outputs, k, i);
            assert(states[i].accepts(inputs[i]));
        }
    }
}

/// Where a map of states keeps what each state accepts and each step it may
/// take, every way of driving a pipe is a way of driving its image.
pub proof fn lemma_drives_transfer<P, Q>(
    pipe: P,
    f: spec_fn(P) -> Q,
    inputs: Seq<P::InputItem>,
    outputs: Seq<P::OutputItem>,
) where P: Pipe, Q: Pipe<InputItem = P::InputItem, OutputItem = P::OutputItem>
    requires
        forall|s: P, x: P::InputItem| #[trigger] s.accepts(x) ==> f(s).accepts(x),
        forall|s: P, x: P::InputItem, s2: P, o: P::OutputItem|
            #[trigger] s.steps_to(x, &s2, o) ==> f(s).steps_to(x, &f(s2), o),
        drives(pipe, inputs, outputs),
    ensures
        drives(f(pipe), inputs, outputs),
{
    let ps = choose|states: Seq<P>| #[trigger] is_run(states, inputs, outputs) && states[0] == pipe;
    let qs = Seq::new(ps.len(), |i: int| f(ps[i]));
    assert forall|i: int| 0 <= i < inputs.len() implies {
        &&& #[trigger] qs[i].accepts(inputs[i])
        &&& qs[i].steps_to(inputs[i], &qs[i + 1], outputs[i])
    } by {
        assert(ps[i].accepts(inputs[i]));
        assert(ps[i].steps_to(inputs[i], &ps[i + 1], outputs[i]));
    }
    assert(is_run(qs, inputs, outputs));
}

/// A composable pipe is driven exactly as the pipe it wraps.
pub proof fn lemma_composed_transparent<P: Pipe>(
    pipe: P,
    inputs: Seq<P::InputItem>,
    outputs: Seq<P::OutputItem>,
)
    ensures
        drives(Composed::wrapped(pipe), inputs, outputs) == drives(pipe, inputs, outputs),
{
    let wrap = |s: P| Composed::wrapped(s);
    let unwrap = |s: Composed<P>| s.inner();
    assert forall|s: P| #[trigger] wrap(s).inner() == s by {
        Composed::wrapped(s).lemma_wrapped(s);
    }
    assert forall|s: P, x: P::InputItem| #[trigger] s.accepts(x) implies wrap(s).accepts(x) by {
        assert(wrap(s).inner() == s);
    }
    assert forall|s: P, x: P::InputItem, s2: P, o: P::OutputItem| #[trigger] s.steps_to(x, &s2, o) implies wrap(
        s,
    ).steps_to(x, &wrap(s2), o) by {
        assert(wrap(s).inner() == s);
        assert(wrap(s2).inner() == s2);
    }
    Composed::wrapped(pipe).lemma_wrapped(pipe);
    if drives(pipe, inputs, outputs) {
        lemma_drives_transfer(pipe, wrap, inputs, outputs);
    }
    if drives(Composed::wrapped(pipe), inputs, outputs) {
        lemma_drives_transfer(Composed::wrapped(pipe), unwrap, inputs, outputs);
    }
}

/// A typed composable pipe is driven exactly as the pipe it wraps.
pub proof fn lemma_compose_transparent<I, O, P: Pipe<InputItem = I, OutputItem = O>>(
    pipe: P,
    inputs: Seq<I>,
    outputs: Seq<O>,
)
    ensures
        drives(Compose::<I, O, P>::wrapped(pipe), inputs, outputs) == drives(pipe, inputs, outputs),
{
    let wrap = |s: P| Compose::<I, O, P>::wrapped(s);
    let unwrap = |s: Compose<I, O, P>| s.inner();
    assert forall|s: P| #[trigger] wrap(s).inner() == s by {
        Compose::<I, O, P>::wrapped(s).lemma_wrapped(s);
    }
    assert forall|s: P, x: I| #[trigger] s.accepts(x) implies wrap(s).accepts(x) by {
        assert(wrap(s).inner() == s);
    }
    assert forall|s: P, x: I, s2: P, o: O| #[trigger] s.steps_to(x, &s2, o) implies wrap(s).steps_to(
        x,
        &wrap(s2),
        o,
    ) by {
        assert(wrap(s).inner() == s);
        assert(wrap(s2).inner() == s2);
    }
    Compose::<I, O, P>::wrapped(pipe).lemma_wrapped(pipe);
    if drives(pipe, inputs, outputs) {
        lemma_drives_transfer(pipe, wrap, inputs, outputs);
    }
    if drives(Compose::<I, O, P>::wrapped(pipe), inputs, outputs) {
        lemma_drives_transfer(Compose::<I, O, P>::wrapped(pipe), unwrap, inputs, outputs);
    }
}

/// A connector whose second pipe is a composable pipe is driven exactly as
/// the connector of the same first pipe with the wrapped pipe itself.
pub proof fn lemma_connector_second_composed<A, Q>(
    a: A,
    q: Q,
    inputs: Seq<A::InputItem>,
    outputs: Seq<Q::OutputItem>,
) where A: Pipe, Q: Pipe<InputItem = A::OutputItem>
    ensures
        drives(Connector::<A, Composed<Q>>::joined(a, Composed::wrapped(q)), inputs, outputs) == drives(
            Connector::<A, Q>::joined(a, q),
            inputs,
            outputs,
        ),
{
    let bare = |c: Connector<A, Composed<Q>>| Connector::<A, Q>::joined(c.first(), c.second().inner());
    let wrap = |c: Connector<A, Q>| Connector::<A, Composed<Q>>::joined(c.first(), Composed::wrapped(c.second()));
    assert forall|c: Connector<A, Composed<Q>>| #[trigger] bare(c).first() == c.first() && bare(c).second()
        == c.second().inner() by {
        c.lemma_parts(c.first(), c.second());
        bare(c).lemma_parts(c.first(), c.second().inner());
    }
    assert forall|c: Connector<A, Q>| #[trigger] wrap(c).first() == c.first() && wrap(c).second().inner()
        == c.second() by {
        wrap(c).lemma_parts(c.first(), Composed::wrapped(c.second()));
        Composed::wrapped(c.second()).lemma_wrapped(c.second());
    }
    assert forall|c: Connector<A, Composed<Q>>, x: A::InputItem| #[trigger] c.accepts(x) implies bare(c).accepts(x) by {
        assert(bare(c).first() == c.first() && bare(c).second() == c.second().inner());
    }
    assert forall|c: Connector<A, Composed<Q>>, x: A::InputItem, c2: Connector<A, Composed<Q>>, o: Q::OutputItem|
        #[trigger] c.steps_to(x, &c2, o) implies bare(c).steps_to(x, &bare(c2), o) by {
        assert(bare(c).first() == c.first() && bare(c).second() == c.second().inner());
        assert(bare(c2).first() == c2.first() && bare(c2).second() == c2.second().inner());
        let mid = choose|mid: A::OutputItem| #[trigger] c.first().steps_to(x, &c2.first(), mid) && c.second().steps_to(mid, &c2.second(), o);
        assert(bare(c).first().steps_to(x, &bare(c2).first(), mid));
    }
    assert forall|c: Connector<A, Q>, x: A::InputItem| #[trigger] c.accepts(x) implies wrap(c).accepts(x) by {
        assert(wrap(c).first() == c.first() && wrap(c).second().inner() == c.second());
    }
    assert forall|c: Connector<A, Q>, x: A::InputItem, c2: Connector<A, Q>, o: Q::OutputItem|
        #[trigger] c.steps_to(x, &c2, o) implies wrap(c).steps_to(x, &wrap(c2), o) by {
        assert(wrap(c).first() == c.first() && wrap(c).second().inner() == c.second());
        assert(wrap(c2).first() == c2.first() && wrap(c2).second().inner() == c2.second());
        let mid = choose|mid: A::OutputItem| #[trigger] c.first().steps_to(x, &c2.first(), mid) && c.second().steps_to(mid, &c2.second(), o);
        assert(wrap(c).first().steps_to(x, &wrap(c2).first(), mid));
    }
    let l = Connector::<A, Composed<Q>>::joined(a, Composed::wrapped(q));
    let r = Connector::<A, Q>::joined(a, q);
    r.lemma_parts(a, q);
    l.lemma_parts(a, Composed::wrapped(q));
    Composed::wrapped(q).lemma_wrapped(q);
    assert(bare(l).first() == a && bare(l).second() == q);
    assert(bare(l) == r);
    assert(wrap(r).first() == a && wrap(r).second().inner() == q);
    assert(wrap(r) == l);
    if drives(l, inputs, outputs) {
        lemma_drives_transfer(l, bare, inputs, outputs);
    }
    if drives(r, inputs, outputs) {
        lemma_drives_transfer(r, wrap, inputs, outputs);
    }
}

/// A connector whose second pipe is a typed composable pipe is driven exactly as
/// the connector of the same first pipe with the wrapped pipe itself.
pub proof fn lemma_connector_second_compose<A, J, K, Q>(
    a: A,
    q: Q,
    inputs: Seq<A::InputItem>,
    outputs: Seq<K>,
) where A: Pipe<OutputItem = J>, Q: Pipe<InputItem = J, OutputItem = K>
    ensures
        drives(Connector::<A, Compose<J, K, Q>>::joined(a, Compose::<J, K, Q>::wrapped(q)), inputs, outputs) == drives(
            Connector::<A, Q>::joined(a, q),
            inputs,
            outputs,
        ),
{
    let bare = |c: Connector<A, Compose<J, K, Q>>| Connector::<A, Q>::joined(c.first(), c.second().inner());
    let wrap = |c: Connector<A, Q>| Connector::<A, Compose<J, K, Q>>::joined(c.first(), Compose::<J, K, Q>::wrapped(c.second()));
    assert forall|c: Connector<A, Compose<J, K, Q>>| #[trigger] bare(c).first() == c.first() && bare(c).second()
        == c.second().inner() by {
        c.lemma_parts(c.first(), c.second());
        bare(c).lemma_parts(c.first(), c.second().inner());
    }
    assert forall|c: Connector<A, Q>| #[trigger] wrap(c).first() == c.first() && wrap(c).second().inner()
        == c.second() by {
        wrap(c).lemma_parts(c.first(), Compose::<J, K, Q>::wrapped(c.second()));
        Compose::<J, K, Q>::wrapped(c.second()).lemma_wrapped(c.second());
    }
    assert forall|c: Connector<A, Compose<J, K, Q>>, x: A::InputItem| #[trigger] c.accepts(x) implies bare(c).accepts(x) by {
        assert(bare(c).first() == c.first() && bare(c).second() == c.second().inner());
    }
    assert forall|c: Connector<A, Compose<J, K, Q>>, x: A::InputItem, c2: Connector<A, Compose<J, K, Q>>, o: K|
        #[trigger] c.steps_to(x, &c2, o) implies bare(c).steps_to(x, &bare(c2), o) by {
        assert(bare(c).first() == c.first() && bare(c).second() == c.second().inner());
        assert(bare(c2).first() == c2.first() && bare(c2).second() == c2.second().inner());
        let mid = choose|mid: A::OutputItem| #[trigger] c.first().steps_to(x, &c2.first(), mid) && c.second().steps_to(mid, &c2.second(), o);
        assert(bare(c).first().steps_to(x, &bare(c2).first(), mid));
    }
    assert forall|c: Connector<A, Q>, x: A::InputItem| #[trigger] c.accepts(x) implies wrap(c).accepts(x) by {
        assert(wrap(c).first() == c.first() && wrap(c).second().inner() == c.second());
    }
    assert forall|c: Connector<A, Q>, x: A::InputItem, c2: Connector<A, Q>, o: K|
        #[trigger] c.steps_to(x, &c2, o) implies wrap(c).steps_to(x, &wrap(c2), o) by {
        assert(wrap(c).first() == c.first() && wrap(c).second().inner() == c.second());
        assert(wrap(c2).first() == c2.first() && wrap(c2).second().inner() == c2.second());
        let mid = choose|mid: A::OutputItem| #[trigger] c.first().steps_to(x, &c2.first(), mid) && c.second().steps_to(mid, &c2.second(), o);
        assert(wrap(c).first().steps_to(x, &wrap(c2).first(), mid));
    }
    let l = Connector::<A, Compose<J, K, Q>>::joined(a, Compose::<J, K, Q>::wrapped(q));
    let r = Connector::<A, Q>::joined(a, q);
    r.lemma_parts(a, q);
    l.lemma_parts(a, Compose::<J, K, Q>::wrapped(q));
    Compose::<J, K, Q>::wrapped(q).lemma_wrapped(q);
    assert(bare(l).first() == a && bare(l).second() == q);
    assert(bare(l) == r);
    assert(wrap(r).first() == a && wrap(r).second().inner() == q);
    assert(wrap(r) == l);
    if drives(l, inputs, outputs) {
        lemma_drives_transfer(l, bare, inputs, outputs);
    }
    if drives(r, inputs, outputs) {
        lemma_drives_transfer(r, wrap, inputs, outputs);
    }
}

/// `>>` is associative: `(a.compose() >> b) >> c` and
/// `a.compose() >> (b.compose() >> c)` may return the same output items when
/// driven with the same input items.
pub proof fn lemma_shr_associative<A, B, C>(
    a: A,
    b: B,
    c: C,
    inputs: Seq<A::InputItem>,
    outputs: Seq<C::OutputItem>,
) where A: Pipe, B: Pipe<InputItem = A::OutputItem>, C: Pipe<InputItem = B::OutputItem>
    ensures
        drives(Composed::wrapped(a).shr_spec(b).shr_spec(c), inputs, outputs) == drives(
            Composed::wrapped(a).shr_spec(Composed::wrapped(b).shr_spec(c)),
            inputs,
            outputs,
        ),
{
    let ab = Connector::<A, B>::joined(a, b);
    let bc = Connector::<B, C>::joined(b, c);
    Composed::wrapped(a).lemma_wrapped(a);
    Composed::wrapped(b).lemma_wrapped(b);
    Composed::wrapped(ab).lemma_wrapped(ab);
    assert(Composed::wrapped(a).shr_spec(b).shr_spec(c) == Composed::wrapped(left_nested(a, b, c)));
    assert(Composed::wrapped(a).shr_spec(Composed::wrapped(b).shr_spec(c)) == Composed::wrapped(
        Connector::<A, Composed<Connector<B, C>>>::joined(a, Composed::wrapped(bc)),
    ));
    lemma_composed_transparent(left_nested(a, b, c), inputs, outputs);
    lemma_connector_associative(a, b, c, inputs, outputs);
    lemma_connector_second_composed(a, bc, inputs, outputs);
    lemma_composed_transparent(
        Connector::<A, Composed<Connector<B, C>>>::joined(a, Composed::wrapped(bc)),
        inputs,
        outputs,
    );
}

/// `>>` on typed composable pipes is associative:
/// `(Compose::new(a) >> b) >> c` and `Compose::new(a) >> (Compose::new(b) >> c)`
/// may return the same output items when driven with the same input items.
pub proof fn lemma_compose_shr_associative<I, M, N, O, A, B, C>(
    a: A,
    b: B,
    c: C,
    inputs: Seq<I>,
    outputs: Seq<O>,
) where
    A: Pipe<InputItem = I, OutputItem = M>,
    B: Pipe<InputItem = M, OutputItem = N>,
    C: Pipe<InputItem = N, OutputItem = O>,

    ensures
        drives(Compose::<I, M, A>::wrapped(a).shr_spec(b).shr_spec(c), inputs, outputs) == drives(
            Compose::<I, M, A>::wrapped(a).shr_spec(Compose::<M, N, B>::wrapped(b).shr_spec(c)),
            inputs,
            outputs,
        ),
{
    let ab = Connector::<A, B>::joined(a, b);
    let bc = Connector::<B, C>::joined(b, c);
    Compose::<I, M, A>::wrapped(a).lemma_wrapped(a);
    Compose::<M, N, B>::wrapped(b).lemma_wrapped(b);
    Compose::<I, N, Connector<A, B>>::wrapped(ab).lemma_wrapped(ab);
    assert(Compose::<I, M, A>::wrapped(a).shr_spec(b).shr_spec(c) == Compose::<
        I,
        O,
        Connector<Connector<A, B>, C>,
    >::wrapped(left_nested(a, b, c)));
    assert(Compose::<I, M, A>::wrapped(a).shr_spec(Compose::<M, N, B>::wrapped(b).shr_spec(c))
        == Compose::<I, O, Connector<A, Compose<M, O, Connector<B, C>>>>::wrapped(
        Connector::<A, Compose<M, O, Connector<B, C>>>::joined(a, Compose::<M, O, Connector<B, C>>::wrapped(bc)),
    ));
    lemma_compose_transparent::<I, O, Connector<Connector<A, B>, C>>(left_nested(a, b, c), inputs, outputs);
    lemma_connector_associative(a, b, c, inputs, outputs);
    lemma_connector_second_compose::<A, M, O, Connector<B, C>>(a, bc, inputs, outputs);
    lemma_compose_transparent::<I, O, Connector<A, Compose<M, O, Connector<B, C>>>>(
        Connector::<A, Compose<M, O, Connector<B, C>>>::joined(a, Compose::<M, O, Connector<B, C>>::wrapped(bc)),
        inputs,
        outputs,
    );
}

/// Whether every call of `next` on a pipe of type `P` has one outcome at
/// most: the state before and the input item fix the output and the state
/// after.
pub open spec fn is_deterministic<P: Pipe>() -> bool {
    forall|s: P, x: P::InputItem, a1: P, o1: P::OutputItem, a2: P, o2: P::OutputItem|
        #![trigger s.steps_to(x, &a1, o1), s.steps_to(x, &a2, o2)]
        s.steps_to(x, &a1, o1) && s.steps_to(x, &a2, o2) ==> a1 == a2 && o1 == o2
}

/// The connector of two deterministic pipes is deterministic.
pub proof fn lemma_connector_deterministic<A, B>() where A: Pipe, B: Pipe<InputItem = A::OutputItem>
    requires
        is_deterministic::<A>(),
        is_deterministic::<B>(),
    ensures
        is_deterministic::<Connector<A, B>>(),
{
    assert forall|s: Connector<A, B>, x: A::InputItem, a1: Connector<A, B>, o1: B::OutputItem, a2: Connector<A, B>, o2: B::OutputItem|
        #![trigger s.steps_to(x, &a1, o1), s.steps_to(x, &a2, o2)]
        s.steps_to(x, &a1, o1) && s.steps_to(x, &a2, o2) implies a1 == a2 && o1 == o2 by {
        let m1 = choose|m: A::OutputItem| #[trigger] s.first().steps_to(x, &a1.first(), m) && s.second().steps_to(m, &a1.second(), o1);
        let m2 = choose|m: A::OutputItem| #[trigger] s.first().steps_to(x, &a2.first(), m) && s.second().steps_to(m, &a2.second(), o2);
        assert(a1.first() == a2.first() && m1 == m2);
        assert(a1.second() == a2.second() && o1 == o2);
        a1.lemma_parts(a1.first(), a1.second());
        a2.lemma_parts(a2.first(), a2.second());
    }
}

proof fn lemma_deterministic_runs_agree<P: Pipe>(
    s1: Seq<P>,
    s2: Seq<P>,
    inputs: Seq<P::InputItem>,
    o1: Seq<P::OutputItem>,
    o2: Seq<P::OutputItem>,
    k: int,
)
    requires
        is_deterministic::<P>(),
        is_run(s1, inputs, o1),
        is_run(s2, inputs, o2),
        s1[0] == s2[0],
        0 <= k < s1.len(),
    ensures
        s1[k] == s2[k],
        forall|i: int| 0 <= i < k ==> #[trigger] o1[i] == o2[i],
    decreases k,
{
    if k > 0 {
        lemma_deterministic_runs_agree(s1, s2, inputs, o1, o2, k - 1);
        assert(s1[k - 1].accepts(inputs[k - 1]));
        assert(s2[k - 1].accepts(inputs[k - 1]));
        assert(s1[k - 1].steps_to(inputs[k - 1], &s1[k], o1[k - 1]));
        assert(s2[k - 1].steps_to(inputs[k - 1], &s2[k], o2[k - 1]));
    }
}

/// A deterministic pipe driven twice from the same state with the same
/// input items returns the same output items.
pub proof fn lemma_deterministic_drives<P: Pipe>(
    pipe: P,
    inputs: Seq<P::InputItem>,
    o1: Seq<P::OutputItem>,
    o2: Seq<P::OutputItem>,
)
    requires
        is_deterministic::<P>(),
        drives(pipe, inputs, o1),
        drives(pipe, inputs, o2),
    ensures
        o1 == o2,
{
    let s1 = choose|states: Seq<P>| #[trigger] is_run(states, inputs, o1) && states[0] == pipe;
    let s2 = choose|states: Seq<P>| #[trigger] is_run(states, inputs, o2) && states[0] == pipe;
    lemma_deterministic_runs_agree(s1, s2, inputs, o1, o2, s1.len() - 1);
    assert(o1 =~= o2);
}

/// With deterministic pipes, `(a -> b) -> c` and `a -> (b -> c)` driven
/// with the same input items return equal output items.
pub proof fn lemma_connector_associative_outputs<A, B, C>(
    a: A,
    b: B,
    c: C,
    inputs: Seq<A::InputItem>,
    left_outputs: Seq<C::OutputItem>,
    right_outputs: Seq<C::OutputItem>,
) where A: Pipe, B: Pipe<InputItem = A::OutputItem>, C: Pipe<InputItem = B::OutputItem>
    requires
        is_deterministic::<A>(),
        is_deterministic::<B>(),
        is_deterministic::<C>(),
        drives(left_nested(a, b, c), inputs, left_outputs),
        drives(right_nested(a, b, c), inputs, right_outputs),
    ensures
        left_outputs == right_outputs,
{
    lemma_connector_associative(a, b, c, inputs, right_outputs);
    lemma_connector_deterministic::<A, B>();
    lemma_connector_deterministic::<Connector<A, B>, C>();
    lemma_deterministic_drives(left_nested(a, b, c), inputs, left_outputs, right_outputs);
}

} // verus!
