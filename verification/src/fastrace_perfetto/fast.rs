//! A flat span format: a span is only its type, and a thread keeps its
//! spans in one buffer.

use vstd::prelude::*;

verus! {

/// The kinds of span of the flat format.
pub enum SpanType {
    RunTask,
    RuntimeStart,
    RuntimeTarminate,
}

/// A span of the flat format.
pub struct Span {
    pub typ: SpanType,
}

/// Each thread has their own `LocalSpans` in TLS.
pub struct LocalSpans {
    pub spans: Vec<Span>,
}

} // verus!
