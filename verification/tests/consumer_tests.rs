use fastant::Instant;
use rt_trace::consumer::{collect_spans, flushed_once, register_receiver, set_flushed_once, Command};
use rt_trace::span::{RawSpan, RunTask, Type};
use rt_trace::TraceState;

fn run(id: u64) -> RawSpan {
    RawSpan::new(Type::RunTask(RunTask {}), id, Instant::ZERO, Instant::ZERO)
}

#[test]
fn first_round_is_led_by_a_process_descriptor() {
    let mut state = TraceState::new();
    let commands = vec![Command::SendSpans(vec![run(1), run(2)]), Command::SendSpans(vec![run(3)])];
    let spans = collect_spans(&mut state, commands);
    assert_eq!(spans.len(), 4);
    assert!(matches!(spans[0].typ, Type::ProcessDiscriptor(_)));
    assert_eq!(spans[0].thread_id, thread_id::get() as u64);
    assert_eq!(spans[1..].iter().map(|s| s.thread_id).collect::<Vec<_>>(), vec![1, 2, 3]);
    assert!(flushed_once(&state));
}

#[test]
fn later_rounds_carry_only_the_received_spans() {
    let mut state = TraceState::new();
    let _ = collect_spans(&mut state, vec![]);
    let spans = collect_spans(&mut state, vec![Command::SendSpans(vec![run(4)]), Command::SendSpans(vec![]), Command::SendSpans(vec![run(5), run(6)])]);
    assert_eq!(spans.iter().map(|s| s.thread_id).collect::<Vec<_>>(), vec![4, 5, 6]);
    let none = collect_spans(&mut state, vec![]);
    assert!(none.is_empty());
}

#[test]
fn collecting_keeps_the_enabled_switch() {
    let mut state = TraceState::new();
    state.enabled = true;
    let _ = collect_spans(&mut state, vec![]);
    assert!(state.enabled);
}

#[test]
fn flushed_once_switch() {
    let mut state = TraceState::new();
    assert!(!flushed_once(&state));
    set_flushed_once(&mut state, true);
    assert!(flushed_once(&state));
    assert!(!state.enabled);
    set_flushed_once(&mut state, false);
    assert!(!flushed_once(&state));
}

#[test]
fn receivers_are_kept_in_order() {
    let mut rxs: Vec<u32> = vec![];
    register_receiver(&mut rxs, 1);
    register_receiver(&mut rxs, 2);
    assert_eq!(rxs, vec![1, 2]);
}
