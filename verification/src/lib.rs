//! Runtime tracing: spans are recorded per thread, batched, collected by a
//! consumer and turned into Perfetto trace packets.

pub mod backend;
pub mod config;
pub mod consumer;
pub mod fastrace_perfetto;
mod platform;
pub mod span;
pub mod span_queue;

use vstd::prelude::*;
use crate::platform::instant_now;
use crate::span::{RawSpan, Span, SpanTimes, Type};

verus! {

/// The switches that the tracer shares between its threads: whether tracing
/// is on, and whether the consumer has already published the process
/// descriptor.
pub struct TraceState {
    pub enabled: bool,
    pub flushed_once: bool,
}

impl TraceState {
    /// Tracing off, nothing flushed yet.
    pub fn new() -> (state: TraceState)
        ensures
            !state.enabled,
            !state.flushed_once,
    {
        TraceState { enabled: false, flushed_once: false }
    }
}

/// Whether tracing is enabled or not.
pub fn enabled(state: &TraceState) -> (on: bool)
    ensures
        on == state.enabled,
{
    state.enabled
}

/// Turns tracing on or off.
pub fn set_enabled(state: &mut TraceState, set: bool)
    ensures
        final(state).enabled == set,
        final(state).flushed_once == old(state).flushed_once,
{
    state.enabled = set;
}

/// Create a span. While tracing is on, it records `typ` on the thread
/// `thread_id`, starting now; while tracing is off, it records nothing.
pub fn span(state: &TraceState, typ: Type, thread_id: u64) -> (s: Span)
    ensures
        state.enabled ==> {
            &&& s.inner is Some
            &&& s.inner.unwrap().typ == typ
            &&& s.inner.unwrap().thread_id == thread_id
            &&& s.inner.unwrap().times.start_is_reading()
            &&& !s.inner.unwrap().times.end_is_reading()
            &&& call_ensures(instant_now, (), s.inner.unwrap().times.spec_start())
        },
        !state.enabled ==> s.inner is None,
{
    if enabled(state) {
        Span { inner: Some(RawSpan { typ, thread_id, times: SpanTimes::open() }) }
    } else {
        Span { inner: None }
    }
}

/// What the caller of `stop` has to do once tracing is off.
pub enum StopAction {
    /// Hand the spans that the consumer side already holds to the consumer.
    FlushConsumer,
}

/// Stop tracing.
///
/// This function flushes spans that the consumer thread has, but doesn't against the
/// spans that is owned by worker threads: it turns tracing off and asks its
/// caller to flush the consumer side.
pub fn stop(state: &mut TraceState) -> (action: StopAction)
    ensures
        !final(state).enabled,
        final(state).flushed_once == old(state).flushed_once,
        action is FlushConsumer,
{
    set_enabled(state, false);
    StopAction::FlushConsumer
}

/// Start tracing. The consumer should be installed before tracing starts.
pub fn start(state: &mut TraceState)
    ensures
        final(state).enabled,
        final(state).flushed_once == old(state).flushed_once,
{
    set_enabled(state, true)
}

} // verus!
