use iterpipes::{Pipe, PipeExt, PipeIter};

// `Pipe` cannot be made into a trait object: its specification functions
// (`steps_to`, `resets_to`) take the pipe's own type as a parameter to relate
// the states before and after a call, and Rust keeps them in the compiled
// trait. A boxed pipe is therefore held under its concrete type here.

#[test]
fn lib_trait_object() {
    let mut pipe: Box<PipeIter<_>> =
        PipeIter::new((0..42).map(|_| 42)).boxed();

    while let Some(i) = pipe.next(()) {
        assert_eq!(i, 42);
    }
}

#[test]
fn tests_trait_object() {
    let mut pipe: Box<PipeIter<_>> =
        PipeIter::new((0..42).map(|_| 42)).boxed();

    while let Some(i) = pipe.next(()) {
        assert_eq!(i, 42);
    }
}
