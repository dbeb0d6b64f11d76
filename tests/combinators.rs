use iterpipes::{
    Bypass, Compose, Composed, ConsumeResult, Connector, Counter, Enumerate, IterPipe, Lazy,
    LazyMut, Optional, Pipe, PipeExt, PipeIter, SliceConsumer, SliceProducer, SliceProducerMut,
};
use iterpipes::run;

#[test]
fn connector_nestings_agree() {
    let inputs: Vec<u32> = vec![0, 1, 2, 3, 7, 100];
    let mut l = Connector::new(
        Connector::new(Lazy::new(|x: u32| x + 1), Lazy::new(|x: u32| x * 3)),
        Enumerate::new(Lazy::new(|x: u32| x - 1)),
    );
    let mut r = Connector::new(
        Lazy::new(|x: u32| x + 1),
        Connector::new(Lazy::new(|x: u32| x * 3), Enumerate::new(Lazy::new(|x: u32| x - 1))),
    );
    for x in inputs {
        assert_eq!(l.next(x), r.next(x));
    }
}

#[test]
fn connector_feeds_first_output_to_second() {
    let mut pipe = Lazy::new(|x: u32| x + 1).connect(Lazy::new(|x: u32| x * 10));
    assert_eq!(pipe.next(1), 20);
    assert_eq!(pipe.next(4), 50);
}

#[test]
fn connector_reset_resets_both() {
    let mut pipe = Counter::new(0u32, 2).connect(Enumerate::new(Lazy::new(|x: u32| x + 1)));
    assert_eq!(pipe.next(()), (0, 1));
    assert_eq!(pipe.next(()), (1, 3));
    pipe.reset();
    assert_eq!(pipe.next(()), (0, 1));
}

#[test]
fn optional_none_does_not_advance() {
    let mut pipe = Optional::new(Counter::new(0u32, 1));
    assert_eq!(pipe.next(None), None);
    assert_eq!(pipe.next(None), None);
    assert_eq!(pipe.next(None), None);
    assert_eq!(pipe.next(Some(())), Some(0));
    assert_eq!(pipe.next(None), None);
    assert_eq!(pipe.next(Some(())), Some(1));
}

#[test]
fn optional_maps_some() {
    let mut pipe = Lazy::new(|x: u32| x * 2).optional();
    assert_eq!(pipe.next(Some(2)), Some(4));
    assert_eq!(pipe.next(None), None);
}

#[test]
fn bypass_returns_input_and_output() {
    let mut pipe = Bypass::new(Lazy::new(|x: i32| x * 2));
    assert_eq!(pipe.next(5), (5, 10));
    assert_eq!(pipe.next(-3), (-3, -6));
    let mut plain = Lazy::new(|x: i32| x * 2);
    assert_eq!(pipe.next(7).1, plain.next(7));
}

#[test]
fn bypass_of_stateful_pipe() {
    let mut pipe = Counter::new(10u8, 5).bypass();
    assert_eq!(pipe.next(()), ((), 10));
    assert_eq!(pipe.next(()), ((), 15));
    pipe.reset();
    assert_eq!(pipe.next(()), ((), 10));
}

#[test]
fn enumerate_counts_calls() {
    let mut pipe = Lazy::new(|_: ()| 42u8).enumerate();
    assert_eq!(pipe.next(()), (0, 42));
    assert_eq!(pipe.next(()), (1, 42));
    assert_eq!(pipe.next(()), (2, 42));
}

#[test]
fn enumerate_indices_ignore_outputs() {
    let mut pipe = Enumerate::new(Counter::new(100u32, 7));
    for i in 0..50usize {
        let (index, value) = pipe.next(());
        assert_eq!(index, i);
        assert_eq!(value, 100 + 7 * i as u32);
    }
    pipe.reset();
    assert_eq!(pipe.next(()), (0, 100));
    assert_eq!(pipe.next(()), (1, 107));
}

#[test]
fn counter_arithmetic() {
    let mut counter = Counter::new(5u32, 3);
    assert_eq!(counter.next(()), 5);
    assert_eq!(counter.next(()), 8);
    assert_eq!(counter.next(()), 11);
    assert_eq!(counter.next(()), 14);
    counter.reset();
    assert_eq!(counter.next(()), 5);
    assert_eq!(counter.next(()), 8);
}

#[test]
fn counter_small_type() {
    let mut counter: Counter<u8> = Counter::new(1, 2);
    assert_eq!(counter.next(()), 1);
    assert_eq!(counter.next(()), 3);
}

#[test]
fn counter_negative_step() {
    let mut counter = Counter::new(0i64, -4);
    assert_eq!(counter.next(()), 0);
    assert_eq!(counter.next(()), -4);
    assert_eq!(counter.next(()), -8);
}

#[test]
fn lazy_mut_keeps_state() {
    let mut calls: u8 = 0;
    let mut pipe = LazyMut::new(|i: u8| {
        calls += 1;
        i * calls
    });
    assert_eq!(pipe.next(1), 1);
    assert_eq!(pipe.next(2), 4);
    assert_eq!(pipe.next(3), 9);
}

#[test]
fn lazy_reset_is_no_op() {
    let factor: u8 = 2;
    let mut pipe = Lazy::new(|i: u8| i * factor);
    assert_eq!(pipe.next(1), 2);
    pipe.reset();
    assert_eq!(pipe.next(2), 4);
}

#[test]
fn slice_round_trip() {
    let input: [u32; 3] = [1, 2, 3];
    let mut output: [u32; 3] = [0, 0, 0];
    let mut results = Vec::new();
    {
        let mut pipeline = SliceProducer::new(&input)
            .connect(Lazy::new(|x: Option<&u32>| x.copied()))
            .connect(SliceConsumer::new(&mut output).optional());
        loop {
            let result = pipeline.next(());
            let done = result != Some(ConsumeResult::Written);
            results.push(result);
            if done {
                break;
            }
        }
    }
    assert_eq!(output, [1, 2, 3]);
    assert_eq!(
        results,
        vec![
            Some(ConsumeResult::Written),
            Some(ConsumeResult::Written),
            Some(ConsumeResult::LastItem)
        ]
    );
}

#[test]
fn slice_round_trip_driven() {
    let input: [u32; 3] = [1, 2, 3];
    let mut output: [u32; 3] = [0, 0, 0];
    {
        let mut pipeline = SliceProducer::new(&input)
            .post_map(|x: Option<&u32>| x.copied())
            .connect(SliceConsumer::new(&mut output).optional())
            .post_map(|r: Option<ConsumeResult>| r == Some(ConsumeResult::Written));
        assert_eq!(run(&mut pipeline, 100), 3);
    }
    assert_eq!(output, [1, 2, 3]);
}

#[test]
fn run_stops_at_limit() {
    let mut pipeline = Counter::new(0u32, 1).post_map(|i: u32| i < 1000);
    assert_eq!(run(&mut pipeline, 10), 10);
    assert_eq!(pipeline.next(()), true);
    let mut done = Lazy::new(|_: ()| false);
    assert_eq!(run(&mut done, 10), 1);
    assert_eq!(run(&mut done, 0), 0);
}

#[test]
fn pre_and_post_map_adapt_types() {
    let mut pipe = Lazy::new(|x: u32| x * 2)
        .pre_map(|s: &str| s.len() as u32)
        .post_map(|x: u32| x + 1);
    assert_eq!(pipe.next("abc"), 7);
    assert_eq!(pipe.next(""), 1);
}

#[test]
fn slice_consumer_reports_full() {
    let mut output: [u8; 2] = [0, 0];
    {
        let mut consumer = SliceConsumer::new(&mut output);
        assert_eq!(consumer.next(7), ConsumeResult::Written);
        assert_eq!(consumer.next(8), ConsumeResult::LastItem);
        assert_eq!(consumer.next(9), ConsumeResult::Full);
        assert_eq!(consumer.next(10), ConsumeResult::Full);
    }
    assert_eq!(output, [7, 8]);
}

#[test]
fn slice_consumer_empty_slice_is_full() {
    let mut output: [u8; 0] = [];
    let mut consumer = SliceConsumer::new(&mut output);
    assert_eq!(consumer.next(1), ConsumeResult::Full);
}

#[test]
fn slice_consumer_reset_rewrites_from_start() {
    let mut output: [u8; 2] = [0, 0];
    {
        let mut consumer = SliceConsumer::new(&mut output);
        assert_eq!(consumer.next(1), ConsumeResult::Written);
        consumer.reset();
        assert_eq!(consumer.next(5), ConsumeResult::Written);
        assert_eq!(consumer.next(6), ConsumeResult::LastItem);
    }
    assert_eq!(output, [5, 6]);
}

#[test]
fn slice_producer_exhaustion_idempotent() {
    let data = [3u32, 2, 1];
    let mut producer = SliceProducer::new(&data);
    assert_eq!(producer.next(()), Some(&3));
    assert_eq!(producer.next(()), Some(&2));
    assert_eq!(producer.next(()), Some(&1));
    assert_eq!(producer.next(()), None);
    assert_eq!(producer.next(()), None);
    assert_eq!(producer.next(()), None);
    producer.reset();
    assert_eq!(producer.next(()), Some(&3));
}

#[test]
fn slice_producer_mut_hands_out_elements() {
    let mut data = [1u32, 2, 3];
    {
        let mut producer = SliceProducerMut::new(&mut data);
        while let Some(x) = producer.next(()) {
            *x *= 10;
        }
        assert!(producer.next(()).is_none());
    }
    assert_eq!(data, [10, 20, 30]);
}

/// An iterator that yields again after it has returned `None` once.
struct Flicker {
    calls: u32,
}

impl Iterator for Flicker {
    type Item = u32;

    fn next(&mut self) -> Option<u32> {
        self.calls += 1;
        if self.calls % 2 == 0 {
            None
        } else {
            Some(self.calls)
        }
    }
}

#[test]
fn pipe_iter_exhaustion_idempotent() {
    let mut pipe = PipeIter::new(vec![1, 2].into_iter());
    assert_eq!(pipe.next(()), Some(1));
    assert_eq!(pipe.next(()), Some(2));
    assert_eq!(pipe.next(()), None);
    assert_eq!(pipe.next(()), None);

    let mut flicker = PipeIter::new(Flicker { calls: 0 });
    assert_eq!(flicker.next(()), Some(1));
    assert_eq!(flicker.next(()), None);
    assert_eq!(flicker.next(()), None);
    assert_eq!(flicker.next(()), None);
}

#[test]
fn iter_pipe_drives_with_default() {
    let data = [3u32, 2, 1];
    let mut iter = SliceProducer::new(&data).into_iter();
    assert_eq!(iter.next(), Some(&3));
    assert_eq!(iter.next(), Some(&2));
    assert_eq!(iter.next(), Some(&1));
    assert_eq!(iter.next(), None);

    let mut doubled = IterPipe::new(
        PipeIter::new(0..4usize).connect(Lazy::new(|i: Option<usize>| i.map(|i| i * 2))),
    );
    let mut collected = Vec::new();
    while let Some(x) = doubled.next() {
        collected.push(x);
    }
    assert_eq!(collected, vec![0, 2, 4, 6]);
}

#[test]
fn iter_pipe_default_input_is_fed() {
    let mut iter = IterPipe::new(Lazy::new(|x: u32| if x == 0 { Some(x + 9) } else { None }));
    assert_eq!(iter.next(), Some(9));
}

#[test]
fn composed_shr_chains() {
    let mut pipe = Lazy::new(|x: u32| x + 1).compose() >> Lazy::new(|x: u32| x * 2)
        >> Lazy::new(|x: u32| x - 3);
    assert_eq!(pipe.next(3), 5);
    assert_eq!(pipe.next(5), 9);
}

#[test]
fn composed_unwrap() {
    let composed = Composed::new(Counter::new(4u16, 4));
    let mut counter = composed.unwrap();
    assert_eq!(counter.next(()), 4);
    assert_eq!(counter.next(()), 8);
}

#[test]
fn compose_checks_item_types() {
    type Stage<P> = Compose<u32, u64, P>;
    let first: Stage<_> = Compose::new(Lazy::new(|x: u32| x as u64 * 3));
    let mut pipe: Compose<u32, bool, _> = first >> Lazy::new(|x: u64| x % 2 == 0);
    assert_eq!(pipe.next(1), false);
    assert_eq!(pipe.next(2), true);
}

#[test]
fn pipe_iter_squarewave_chain() {
    let mut pipe = PipeIter::new(0..).compose()
        >> Lazy::new(|i: Option<usize>| i.unwrap())
        >> Lazy::new(|i: usize| (i % 4) < 2);
    for expected in [true, true, false, false, true, true, false, false] {
        assert_eq!(pipe.next(()), expected);
    }
}

#[test]
fn pair_and_unit_pipes() {
    let mut pair = (Counter::new(0u8, 1), Lazy::new(|x: u8| x * 2));
    assert_eq!(pair.next(((), 3)), (0, 6));
    assert_eq!(pair.next(((), 4)), (1, 8));
    pair.reset();
    assert_eq!(pair.next(((), 5)), (0, 10));

    let mut unit = ();
    unit.next(());
    unit.reset();
}

#[test]
fn borrowed_pipe_is_a_pipe() {
    let mut counter = Counter::new(0u32, 1);
    {
        let mut chain = (&mut counter).connect(Lazy::new(|x: u32| x * 100));
        assert_eq!(chain.next(()), 0);
        assert_eq!(chain.next(()), 100);
    }
    assert_eq!(counter.next(()), 2);
}

#[test]
fn boxed_pipe_is_a_pipe() {
    let mut pipe = Lazy::new(|i: usize| i * 2).boxed().connect(Lazy::new(|i: usize| i + 1));
    assert_eq!(pipe.next(3), 7);
    let mut doubled = Lazy::new(|i: usize| i * 2).boxed();
    for i in 0..4 {
        assert_eq!(i * 2, doubled.next(i));
    }
}

#[test]
fn pipe_iter_round_trip_through_iter_pipe() {
    let data = vec![5u32, 1, 4, 1];
    let mut iter = PipeIter::new(data.clone().into_iter()).into_iter();
    let mut back = Vec::new();
    while let Some(x) = iter.next() {
        back.push(x);
    }
    assert_eq!(back, data);
}

#[test]
fn shr_nestings_agree() {
    let mut left = (Lazy::new(|x: u32| x + 1).compose() >> Lazy::new(|x: u32| x * 3))
        >> Enumerate::new(Lazy::new(|x: u32| x - 1));
    let mut right = Lazy::new(|x: u32| x + 1).compose()
        >> (Lazy::new(|x: u32| x * 3).compose() >> Enumerate::new(Lazy::new(|x: u32| x - 1)));
    for x in [0u32, 4, 9, 2] {
        assert_eq!(left.next(x), right.next(x));
    }
}

#[test]
fn slice_producer_mut_exhaustion_idempotent() {
    let mut data = [1u8];
    let mut producer = SliceProducerMut::new(&mut data);
    assert!(producer.next(()).is_some());
    assert!(producer.next(()).is_none());
    assert!(producer.next(()).is_none());
}
