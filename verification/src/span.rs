//! Span records and their types.

mod clock;

pub(crate) use clock::span_unix_nanos;

use vstd::prelude::*;
use fastant::Instant;
use crate::platform::{instant_now, instant_zero};
use crate::TraceState;

verus! {

/// Marker payload of a task run.
#[derive(Debug)]
pub struct RunTask {}

/// Marker payload of a runtime start.
#[derive(Debug)]
pub struct RuntimeStart {}

/// Marker payload of a runtime termination.
#[derive(Debug)]
pub struct RuntimeTerminate {}

/// Marker payload of a thread descriptor record.
#[derive(Debug)]
pub struct ThreadDiscriptor {}

/// Marker payload of a process descriptor record.
#[derive(Debug)]
pub struct ProcessDiscriptor {}

/// What a span stands for.
#[derive(Debug)]
pub enum Type {
    RunTask(RunTask),
    RuntimeStart(RuntimeStart),
    RuntimeTarminate(RuntimeTerminate),
    // perfetto specific
    ThreadDiscriptor(ThreadDiscriptor),
    ProcessDiscriptor(ProcessDiscriptor),
}

/// The name of each span type.
pub open spec fn spec_type_name(typ: Type) -> Seq<char> {
    match typ {
        Type::RunTask(_) => "run_task"@,
        Type::RuntimeStart(_) => "runtime_start"@,
        Type::RuntimeTarminate(_) => "runtime_terminate"@,
        Type::ThreadDiscriptor(_) => "thread_discriptor"@,
        Type::ProcessDiscriptor(_) => "process_discriptor"@,
    }
}

impl Type {
    /// Return `str` representation of this type.
    pub fn type_name_str(&self) -> (name: &'static str)
        ensures
            name@ == spec_type_name(*self),
    {
        match self {
            Type::RunTask(_) => "run_task",
            Type::RuntimeStart(_) => "runtime_start",
            Type::RuntimeTarminate(_) => "runtime_terminate",
            Type::ThreadDiscriptor(_) => "thread_discriptor",
            Type::ProcessDiscriptor(_) => "process_discriptor",
        }
    }

    /// Return `String` representation of this type.
    pub fn type_name_string(&self) -> (name: String)
        ensures
            name@ == spec_type_name(*self),
    {
        self.type_name_str().to_string()
    }
}

/// When a span started and ended.
///
/// The instants are private: they come only from `SpanTimes::new` (instants
/// given by the caller), `SpanTimes::open` (the start read from the clock)
/// and `SpanTimes::close` (the end read from the clock). The ghost flags
/// record which of the instants were read from the clock; only those
/// functions set them.
pub struct SpanTimes {
    start: Instant,
    end: Instant,
    start_read: Ghost<bool>,
    end_read: Ghost<bool>,
}

impl SpanTimes {
    /// When the span started.
    pub closed spec fn spec_start(&self) -> Instant {
        self.start
    }

    /// When the span ended.
    pub closed spec fn spec_end(&self) -> Instant {
        self.end
    }

    /// The start was read from the clock.
    pub closed spec fn start_is_reading(&self) -> bool {
        self.start_read@
    }

    /// The end was read from the clock.
    pub closed spec fn end_is_reading(&self) -> bool {
        self.end_read@
    }

    /// Both instants were read from the clock.
    pub open spec fn is_stamped(&self) -> bool {
        self.start_is_reading() && self.end_is_reading()
    }

    /// The given instants, not taken to be clock readings.
    pub fn new(start: Instant, end: Instant) -> (times: SpanTimes)
        ensures
            times.spec_start() == start,
            times.spec_end() == end,
            !times.start_is_reading(),
            !times.end_is_reading(),
    {
        SpanTimes { start, end, start_read: Ghost(false), end_read: Ghost(false) }
    }

    /// A start read from the clock now, and the end `Instant::ZERO` until the
    /// span is closed.
    pub fn open() -> (times: SpanTimes)
        ensures
            times.start_is_reading(),
            !times.end_is_reading(),
            call_ensures(instant_now, (), times.spec_start()),
    {
        SpanTimes {
            start: instant_now(),
            end: instant_zero(),
            start_read: Ghost(true),
            end_read: Ghost(false),
        }
    }

    /// Reads the end from the clock now.
    pub fn close(&mut self)
        ensures
            final(self).spec_start() == old(self).spec_start(),
            final(self).start_is_reading() == old(self).start_is_reading(),
            final(self).end_is_reading(),
            call_ensures(instant_now, (), final(self).spec_end()),
    {
        self.end = instant_now();
        self.end_read = Ghost(true);
    }

    /// When the span started.
    pub fn start(&self) -> (start: Instant)
        ensures
            start == self.spec_start(),
    {
        self.start
    }

    /// When the span ended.
    pub fn end(&self) -> (end: Instant)
        ensures
            end == self.spec_end(),
    {
        self.end
    }
}

/// One recorded span: its type, the thread it belongs to, and when it
/// started and ended.
pub struct RawSpan {
    pub typ: Type,
    pub thread_id: u64,
    pub times: SpanTimes,
}

impl RawSpan {
    /// A record with the given fields. Its instants are not taken to be
    /// clock readings.
    pub fn new(typ: Type, thread_id: u64, start: Instant, end: Instant) -> (span: RawSpan)
        ensures
            span.typ == typ,
            span.thread_id == thread_id,
            span.times.spec_start() == start,
            span.times.spec_end() == end,
            !span.times.start_is_reading(),
            !span.times.end_is_reading(),
    {
        RawSpan { typ, thread_id, times: SpanTimes::new(start, end) }
    }

    /// Both instants of the record were read from the clock.
    pub open spec fn is_stamped(&self) -> bool {
        self.times.is_stamped()
    }
}

/// A span that is being recorded. It should be finished on the thread that
/// opened it.
pub struct Span {
    pub inner: Option<RawSpan>,
}

impl Span {
    /// What a span does when it is dropped: while tracing is on, it stamps
    /// its end time and hands over its record, to be pushed to the queue of
    /// its thread. While tracing is off, it does nothing.
    pub fn finish(&mut self, state: &TraceState) -> (done: Option<RawSpan>)
        ensures
            !state.enabled ==> done is None && *final(self) == *old(self),
            state.enabled ==> final(self).inner is None,
            state.enabled && old(self).inner is None ==> done is None,
            state.enabled && old(self).inner is Some ==> {
                &&& done is Some
                &&& done.unwrap().typ == old(self).inner.unwrap().typ
                &&& done.unwrap().thread_id == old(self).inner.unwrap().thread_id
                &&& done.unwrap().times.spec_start() == old(self).inner.unwrap().times.spec_start()
                &&& done.unwrap().times.start_is_reading() == old(self).inner.unwrap().times.start_is_reading()
                &&& done.unwrap().times.end_is_reading()
                &&& call_ensures(instant_now, (), done.unwrap().times.spec_end())
            },
    {
        if !crate::enabled(state) {
            return None;
        }
        let mut taken = None;
        std::mem::swap(&mut self.inner, &mut taken);
        match taken {
            Some(mut span) => {
                span.times.close();
                Some(span)
            },
            None => None,
        }
    }
}

} // verus!
