//! Compositional, single-step stream processing.
//!
//! A [`Pipe`] turns one input item into one output item per call of `next`.
//! Pipes are combined into larger pipes by the combinators of this crate:
//! sequential connection, optional wrapping, bypassing, enumeration, and
//! bridges from iterators and to an iterator-like interface.
//!
//! Each pipe states its behaviour as a relation between its state before a
//! call, the input item, its state after the call and the output item. The
//! combinators derive their relations from those of the pipes they own.
pub mod pipe;
pub mod util;
pub mod iter;
pub mod compose;
pub mod composed;
pub mod slice;
pub mod laws;
pub mod pipeline;

pub use pipe::{Pipe, PipeExt};
pub use compose::Compose;
pub use composed::Composed;
pub use iter::{IterPipe, PipeIter};
pub use pipeline::run;
pub use slice::{ConsumeResult, SliceConsumer, SliceProducer, SliceProducerMut};
pub use util::{Bypass, Connector, Counter, Enumerate, Lazy, LazyMut, Optional};
