use fastant::{Anchor, Instant};
use rt_trace::{span, start, TraceState};
use rt_trace::backend::perfetto::{
    append_process_descriptor, append_thread_descriptor, build_trace, create_debug_annotations,
    create_process_descriptor, create_thread_descriptor, create_track_descriptor,
    create_track_event, process_descriptor, thread_descriptor, trace_of_spans,
    TRUSTED_PACKET_SEQUENCE_ID, TRUSTED_UID,
};
use rt_trace::backend::perfetto_protos::{PacketData, Trace, TracePacket, TrackEventType};
use rt_trace::span::{ProcessDiscriptor, RawSpan, RunTask, ThreadDiscriptor, Type};

fn raw(typ: Type, id: u64) -> RawSpan {
    RawSpan::new(typ, id, Instant::ZERO, Instant::ZERO)
}

fn descriptor(p: &TracePacket) -> &rt_trace::backend::perfetto_protos::TrackDescriptor {
    match p.data.as_ref().unwrap() {
        PacketData::TrackDescriptor(d) => d,
        _ => panic!("not a descriptor"),
    }
}

fn event(p: &TracePacket) -> &rt_trace::backend::perfetto_protos::TrackEvent {
    match p.data.as_ref().unwrap() {
        PacketData::TrackEvent(e) => e,
        _ => panic!("not an event"),
    }
}

#[test]
fn debug_annotations_are_key1_value1() {
    let a = create_debug_annotations();
    assert_eq!(a.len(), 1);
    assert_eq!(a[0].name.as_deref(), Some("key1"));
    assert_eq!(a[0].string_value.as_deref(), Some("value1"));
}

#[test]
fn event_type_numbers() {
    assert_eq!(TrackEventType::Unspecified.number(), 0);
    assert_eq!(TrackEventType::SliceBegin.number(), 1);
    assert_eq!(TrackEventType::SliceEnd.number(), 2);
    assert_eq!(TrackEventType::Instant.number(), 3);
    assert_eq!(TrackEventType::Counter.number(), 4);
}

#[test]
fn create_functions_fill_the_fields() {
    let e = create_track_event(Some("n".to_string()), 5, Some(TrackEventType::SliceEnd), vec![]);
    assert_eq!(e.track_uuid, Some(5));
    assert_eq!(e.name.as_deref(), Some("n"));
    assert_eq!(e.typ, Some(2));
    assert!(e.debug_annotations.is_empty());
    let e = create_track_event(None, 6, None, create_debug_annotations());
    assert_eq!(e.typ, None);
    assert_eq!(e.debug_annotations.len(), 1);

    assert_eq!(create_process_descriptor(-3).pid, Some(-3));

    let t = create_thread_descriptor(1, 0x1_0000_0002, "x".to_string());
    assert_eq!(t.pid, Some(1));
    assert_eq!(t.tid, Some(2));
    assert_eq!(t.thread_name.as_deref(), Some("x"));

    let d = create_track_descriptor(9, None, Some(create_process_descriptor(4)), None);
    assert_eq!(d.uuid, Some(9));
    assert!(d.name.is_none());
    assert_eq!(d.process.unwrap().pid, Some(4));
    assert!(d.thread.is_none());
}

#[test]
fn descriptors_are_put_in_front() {
    let mut trace = Trace::new();
    append_process_descriptor(&mut trace, 7, 5);
    append_thread_descriptor(&mut trace, 7, 11);
    assert_eq!(trace.packet.len(), 2);
    let first = descriptor(&trace.packet[0]);
    assert_eq!(first.uuid, Some(11));
    assert_eq!(first.name.as_deref(), Some("thread_name"));
    let th = first.thread.as_ref().unwrap();
    assert_eq!(th.pid, Some(7));
    assert_eq!(th.tid, Some(11));
    assert_eq!(th.thread_name.as_deref(), Some("thread_name"));
    assert_eq!(first.process.unwrap().pid, Some(7));
    assert_eq!(trace.packet[0].trusted_uid, Some(TRUSTED_UID));
    let second = descriptor(&trace.packet[1]);
    assert_eq!(second.uuid, Some(5));
    assert!(second.name.is_none());
    assert!(second.thread.is_none());
    assert_eq!(second.process.unwrap().pid, Some(7));
    assert_eq!(trace.packet[1].trusted_uid, Some(42));
    assert_eq!(trace.packet[1].timestamp, None);
}

#[test]
fn build_trace_orders_descriptors_before_events() {
    let spans = vec![
        raw(Type::ProcessDiscriptor(ProcessDiscriptor {}), 5),
        raw(Type::RunTask(RunTask {}), 9),
        raw(Type::ThreadDiscriptor(ThreadDiscriptor {}), 11),
        raw(Type::RunTask(RunTask {}), 12),
    ];
    let stamps = vec![(0, 0), (100, 200), (0, 0), (300, 400)];
    let trace = build_trace(7, &spans, &stamps);
    assert_eq!(trace.packet.len(), 6);
    assert_eq!(descriptor(&trace.packet[0]).uuid, Some(11));
    assert_eq!(descriptor(&trace.packet[1]).uuid, Some(5));

    let begin = &trace.packet[2];
    assert_eq!(begin.timestamp, Some(100));
    assert_eq!(begin.trusted_pid, Some(7));
    assert_eq!(begin.trusted_packet_sequence_id, Some(TRUSTED_PACKET_SEQUENCE_ID));
    let e = event(begin);
    assert_eq!(e.track_uuid, Some(9));
    assert_eq!(e.name.as_deref(), Some("run_task"));
    assert_eq!(e.typ, Some(1));
    assert_eq!(e.debug_annotations.len(), 1);

    let end = &trace.packet[3];
    assert_eq!(end.timestamp, Some(200));
    let e = event(end);
    assert_eq!(e.name, None);
    assert_eq!(e.typ, Some(2));
    assert_eq!(e.track_uuid, Some(9));

    assert_eq!(trace.packet[4].timestamp, Some(300));
    assert_eq!(trace.packet[5].timestamp, Some(400));
    assert_eq!(event(&trace.packet[5]).track_uuid, Some(12));
}

#[test]
fn a_thread_track_is_declared_once() {
    let mut trace = Trace::new();
    append_thread_descriptor(&mut trace, 7, 11);
    append_process_descriptor(&mut trace, 7, 5);
    append_thread_descriptor(&mut trace, 7, 11);
    assert_eq!(trace.packet.len(), 2);
    append_thread_descriptor(&mut trace, 7, 12);
    assert_eq!(trace.packet.len(), 3);
    assert_eq!(descriptor(&trace.packet[0]).uuid, Some(12));

    let spans = vec![
        raw(Type::ThreadDiscriptor(ThreadDiscriptor {}), 4),
        raw(Type::RunTask(RunTask {}), 4),
        raw(Type::ThreadDiscriptor(ThreadDiscriptor {}), 4),
    ];
    let trace = build_trace(1, &spans, &[(0, 0), (1, 2), (0, 0)]);
    assert_eq!(trace.packet.len(), 3);
    assert_eq!(descriptor(&trace.packet[0]).uuid, Some(4));
}

#[test]
fn empty_batch_gives_empty_trace() {
    let trace = build_trace(1, &[], &[]);
    assert!(trace.packet.is_empty());
}

#[test]
fn trace_of_spans_reads_unix_times() {
    let mut state = TraceState::new();
    start(&mut state);
    let mut s = span(&state, Type::RunTask(RunTask {}), 3);
    let done = s.finish(&state).unwrap();
    let spans = vec![raw(Type::ThreadDiscriptor(ThreadDiscriptor {}), 3), done];
    let anchor = Anchor::new();
    let trace = trace_of_spans(8, &spans, &anchor);
    assert_eq!(trace.packet.len(), 3);
    let begin_ns = trace.packet[1].timestamp.unwrap();
    let end_ns = trace.packet[2].timestamp.unwrap();
    // Unix times of now are far from the raw cycle counts and from zero.
    assert!(begin_ns > 1_000_000_000_000_000_000);
    assert!(end_ns >= begin_ns);
}

#[test]
fn descriptor_spans_belong_to_the_calling_thread() {
    let t = thread_descriptor();
    assert!(matches!(t.typ, Type::ThreadDiscriptor(_)));
    assert_eq!(t.thread_id, thread_id::get() as u64);
    assert_eq!(t.times.start(), Instant::ZERO);
    assert_eq!(t.times.end(), Instant::ZERO);
    let p = process_descriptor();
    assert!(matches!(p.typ, Type::ProcessDiscriptor(_)));
    assert_eq!(p.thread_id, thread_id::get() as u64);
}
