use rt_trace::span::{
    ProcessDiscriptor, RunTask, RuntimeStart, RuntimeTerminate, ThreadDiscriptor, Type,
};
use rt_trace::span::SpanTimes;
use rt_trace::{enabled, set_enabled, span, start, stop, StopAction, TraceState};

#[test]
fn type_names_are_fixed() {
    assert_eq!(Type::RunTask(RunTask {}).type_name_str(), "run_task");
    assert_eq!(Type::RuntimeStart(RuntimeStart {}).type_name_str(), "runtime_start");
    assert_eq!(Type::RuntimeTarminate(RuntimeTerminate {}).type_name_str(), "runtime_terminate");
    assert_eq!(Type::ThreadDiscriptor(ThreadDiscriptor {}).type_name_str(), "thread_discriptor");
    assert_eq!(Type::ProcessDiscriptor(ProcessDiscriptor {}).type_name_str(), "process_discriptor");
}

#[test]
fn type_name_string_matches_str() {
    let types = vec![
        Type::RunTask(RunTask {}),
        Type::RuntimeStart(RuntimeStart {}),
        Type::RuntimeTarminate(RuntimeTerminate {}),
        Type::ThreadDiscriptor(ThreadDiscriptor {}),
        Type::ProcessDiscriptor(ProcessDiscriptor {}),
    ];
    for t in &types {
        assert_eq!(t.type_name_string(), t.type_name_str().to_string());
    }
    assert_eq!(Type::RunTask(RunTask {}).type_name_string(), String::from("run_task"));
}

#[test]
fn tracing_starts_disabled() {
    let state = TraceState::new();
    assert!(!enabled(&state));
    assert!(!state.flushed_once);
}

#[test]
fn start_then_enabled_stop_then_disabled() {
    let mut state = TraceState::new();
    start(&mut state);
    assert!(enabled(&state));
    stop(&mut state);
    assert!(!enabled(&state));
    start(&mut state);
    start(&mut state);
    assert!(enabled(&state));
}

#[test]
fn stop_asks_for_a_consumer_flush() {
    let mut state = TraceState::new();
    start(&mut state);
    assert!(matches!(stop(&mut state), StopAction::FlushConsumer));
    assert!(!enabled(&state));
}

#[test]
fn start_and_stop_keep_flushed_once() {
    let mut state = TraceState::new();
    state.flushed_once = true;
    start(&mut state);
    assert!(state.flushed_once);
    stop(&mut state);
    assert!(state.flushed_once);
    set_enabled(&mut state, true);
    assert!(state.flushed_once);
    assert!(enabled(&state));
}

#[test]
fn span_records_only_while_enabled() {
    let mut state = TraceState::new();
    let off = span(&state, Type::RunTask(RunTask {}), 7);
    assert!(off.inner.is_none());
    start(&mut state);
    let on = span(&state, Type::RunTask(RunTask {}), 7);
    let raw = on.inner.as_ref().unwrap();
    assert_eq!(raw.thread_id, 7);
    assert!(matches!(raw.typ, Type::RunTask(_)));
    assert_eq!(raw.times.end(), fastant::Instant::ZERO);
}

#[test]
fn finishing_a_span_hands_over_its_record_once() {
    let mut state = TraceState::new();
    start(&mut state);
    let mut s = span(&state, Type::RunTask(RunTask {}), 3);
    let start_instant = s.inner.as_ref().unwrap().times.start();
    let done = s.finish(&state).unwrap();
    assert_eq!(done.thread_id, 3);
    assert_eq!(done.times.start(), start_instant);
    assert!(done.times.end() >= done.times.start());
    assert!(s.inner.is_none());
    assert!(s.finish(&state).is_none());
}

#[test]
fn finishing_while_disabled_keeps_the_span() {
    let mut state = TraceState::new();
    start(&mut state);
    let mut s = span(&state, Type::RunTask(RunTask {}), 3);
    stop(&mut state);
    assert!(s.finish(&state).is_none());
    assert!(s.inner.is_some());
}

#[test]
fn span_times_keep_given_instants() {
    let now = fastant::Instant::now();
    let t = SpanTimes::new(fastant::Instant::ZERO, now);
    assert_eq!(t.start(), fastant::Instant::ZERO);
    assert_eq!(t.end(), now);
    let mut open = SpanTimes::open();
    assert_eq!(open.end(), fastant::Instant::ZERO);
    let started = open.start();
    open.close();
    assert_eq!(open.start(), started);
    assert!(open.end() >= started);
}
