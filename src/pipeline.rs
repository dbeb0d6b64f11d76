use vstd::prelude::*;

use crate::pipe::{is_run, Pipe};

verus! {

/// `n` unit input items.
pub open spec fn units(n: nat) -> Seq<()> {
    Seq::new(n, |i: int| ())
}

/// Whether the pipe, fed only `()`, accepts `()` in every state it can
/// reach.
pub open spec fn always_accepts_unit<P: Pipe<InputItem = ()>>(pipe: P) -> bool {
    forall|states: Seq<P>, n: nat, outputs: Seq<P::OutputItem>|
        #[trigger] is_run(states, units(n), outputs) && states[0] == pipe ==> states.last().accepts(())
}

/// A pipe accepts `()` in every state it can reach, where a property of its
/// states holds at the start, is kept by every call, and lets it accept
/// `()`.
pub proof fn lemma_always_accepts_unit<P: Pipe<InputItem = ()>>(pipe: P, inv: spec_fn(P) -> bool)
    requires
        inv(pipe),
        forall|p: P, after: P, out: P::OutputItem|
            inv(p) && #[trigger] p.steps_to((), &after, out) ==> inv(after),
        forall|p: P| #[trigger] inv(p) ==> p.accepts(()),
    ensures
        always_accepts_unit(pipe),
{
    assert forall|states: Seq<P>, n: nat, outputs: Seq<P::OutputItem>|
        #[trigger] is_run(states, units(n), outputs) && states[0] == pipe implies states.last().accepts(()) by {
        lemma_run_keeps(states, n, outputs, inv, states.len() - 1);
    }
}

proof fn lemma_run_keeps<P: Pipe<InputItem = ()>>(
    states: Seq<P>,
    n: nat,
    outputs: Seq<P::OutputItem>,
    inv: spec_fn(P) -> bool,
    k: int,
)
    requires
        is_run(states, units(n), outputs),
        inv(states[0]),
        forall|p: P, after: P, out: P::OutputItem|
            inv(p) && #[trigger] p.steps_to((), &after, out) ==> inv(after),
        0 <= k < states.len(),
    ensures
        inv(states[k]),
    decreases k,
{
    if k > 0 {
        lemma_run_keeps(states, n, outputs, inv, k - 1);
        assert(states[k - 1].accepts(units(n)[k - 1]));
        assert(states[k - 1].steps_to((), &states[k], outputs[k - 1]));
    }
}

/// Drive a pipeline: call `next(())` until it returns `false`, the signal
/// that it is done, or until `limit` calls were made. Returns the number of
/// calls.
///
/// Every call but the last one returned `true`; where fewer than `limit`
/// calls were made, the last one returned `false`.
pub fn run<P: Pipe<InputItem = (), OutputItem = bool>>(pipeline: &mut P, limit: usize) -> (calls:
    usize)
    requires
        always_accepts_unit(*old(pipeline)),
    ensures
        calls <= limit,
        exists|states: Seq<P>, outputs: Seq<bool>|
            {
                &&& #[trigger] is_run(states, units(calls as nat), outputs)
                &&& states[0] == *old(pipeline)
                &&& states.last() == *final(pipeline)
                &&& forall|i: int| 0 <= i < calls - 1 ==> #[trigger] outputs[i]
                &&& calls < limit ==> calls > 0 && !outputs[calls - 1]
            },
{
    let mut calls: usize = 0;
    let mut done = false;
    let ghost start = *pipeline;
    let ghost mut states: Seq<P> = seq![*pipeline];
    let ghost mut outputs: Seq<bool> = Seq::empty();
    while calls < limit && !done
        invariant
            always_accepts_unit(start),
            calls <= limit,
            is_run(states, units(calls as nat), outputs),
            states[0] == start,
            states.last() == *pipeline,
            forall|i: int| 0 <= i < calls - 1 ==> #[trigger] outputs[i],
            done ==> calls > 0 && !outputs[calls - 1],
            !done && calls > 0 ==> outputs[calls - 1],
        decreases limit - calls,
    {
        assert(states.len() - 1 == calls);
        assert(pipeline.accepts(()));
        let ghost before = *pipeline;
        let go = pipeline.next(());
        proof {
            let old_states = states;
            let old_outputs = outputs;
            states = states.push(*pipeline);
            outputs = outputs.push(go);
            assert(units((calls + 1) as nat) =~= units(calls as nat).push(()));
            assert forall|i: int| 0 <= i < calls + 1 implies {
                &&& #[trigger] states[i].accepts(units((calls + 1) as nat)[i])
                &&& states[i].steps_to(units((calls + 1) as nat)[i], &states[i + 1], outputs[i])
            } by {
                if i < calls {
                    assert(old_states[i].accepts(units(calls as nat)[i]));
                } else {
                    assert(states[i] == before);
                    assert(states[i + 1] == *pipeline);
                    assert(before.steps_to((), &*pipeline, go));
                }
            }
        }
        calls = calls + 1;
        done = !go;
    }
    calls
}

} // verus!
