use rt_trace::fastrace_perfetto::fast::{LocalSpans, Span, SpanType};
use rt_trace::fastrace_perfetto::{
    append_process_descriptor, append_thread_descriptor, build_report, create_process_descriptor,
    create_thread_descriptor, create_track_descriptor, create_track_event, ReportedSpan,
    ReporterState,
};
use rt_trace::backend::perfetto_protos::{PacketData, Trace, TracePacket, TrackEventType};

fn span(name: &str, begin: u64, duration: u64) -> ReportedSpan {
    ReportedSpan { name: name.to_string(), begin_time_unix_ns: begin, duration_ns: duration }
}

fn is_descriptor(p: &TracePacket) -> bool {
    matches!(p.data, Some(PacketData::TrackDescriptor(_)))
}

#[test]
fn first_report_declares_thread_then_process() {
    let mut state = ReporterState::new();
    let trace = build_report(&mut state, 7, 99, Some("worker"), vec![span("a", 10, 5)]);
    assert_eq!(trace.packet.len(), 4);
    let thread = match trace.packet[0].data.as_ref().unwrap() {
        PacketData::TrackDescriptor(d) => d,
        _ => panic!(),
    };
    assert_eq!(thread.uuid, Some(99));
    assert_eq!(thread.name.as_deref(), Some("worker"));
    let td = thread.thread.as_ref().unwrap();
    assert_eq!(td.tid, Some(thread_id::get() as i32));
    assert_eq!(td.thread_name.as_deref(), Some("worker"));
    let process = match trace.packet[1].data.as_ref().unwrap() {
        PacketData::TrackDescriptor(d) => d,
        _ => panic!(),
    };
    assert!(process.thread.is_none());
    assert_eq!(process.process.unwrap().pid, Some(7));
    assert_eq!(trace.packet[2].timestamp, Some(10));
    assert_eq!(trace.packet[3].timestamp, Some(15));
    assert!(state.process_descriptor_sent && state.thread_descriptor_sent);
}

#[test]
fn later_reports_only_carry_slices() {
    let mut state = ReporterState::new();
    let _ = build_report(&mut state, 7, 99, None, vec![]);
    let trace = build_report(&mut state, 7, 99, None, vec![span("a", 1, 2), span("b", 3, 0)]);
    assert_eq!(trace.packet.len(), 4);
    assert!(!trace.packet.iter().any(is_descriptor));
    let names: Vec<Option<String>> = trace
        .packet
        .iter()
        .map(|p| match p.data.as_ref().unwrap() {
            PacketData::TrackEvent(e) => e.name.clone(),
            _ => panic!(),
        })
        .collect();
    assert_eq!(names, vec![Some("a".to_string()), None, Some("b".to_string()), None]);
    let stamps: Vec<u64> = trace.packet.iter().map(|p| p.timestamp.unwrap()).collect();
    assert_eq!(stamps, vec![1, 3, 3, 3]);
    for p in &trace.packet {
        match p.data.as_ref().unwrap() {
            PacketData::TrackEvent(e) => {
                assert!(e.debug_annotations.is_empty());
                assert_eq!(e.track_uuid, Some(99));
            }
            _ => panic!(),
        }
        assert_eq!(p.trusted_pid, Some(7));
        assert_eq!(p.trusted_packet_sequence_id, Some(42));
    }
}

#[test]
fn appending_descriptors_sets_the_flags() {
    let mut trace = Trace::new();
    let mut sent = false;
    append_process_descriptor(&mut trace, &mut sent, 1, 2);
    assert!(sent);
    assert_eq!(trace.packet.len(), 1);
    append_process_descriptor(&mut trace, &mut sent, 1, 2);
    assert_eq!(trace.packet.len(), 1);
    let mut tsent = false;
    append_thread_descriptor(&mut trace, &mut tsent, 1, 2, None);
    assert!(tsent);
    assert_eq!(trace.packet.len(), 2);
    append_thread_descriptor(&mut trace, &mut tsent, 1, 2, None);
    assert_eq!(trace.packet.len(), 2);
}

#[test]
fn fastrace_create_functions() {
    let e = create_track_event(None, 4, Some(TrackEventType::SliceBegin));
    assert_eq!(e.typ, Some(1));
    assert!(e.debug_annotations.is_empty());
    assert_eq!(create_process_descriptor(3).pid, Some(3));
    let d = create_track_descriptor(5, Some("n"), None, None);
    assert_eq!(d.name.as_deref(), Some("n"));
    let t = create_thread_descriptor(2, None);
    assert_eq!(t.pid, Some(2));
    assert!(t.thread_name.is_none());
    assert_eq!(t.tid, Some(thread_id::get() as i32));
}

#[test]
fn flat_span_format_holds_types() {
    let spans = LocalSpans { spans: vec![Span { typ: SpanType::RunTask }, Span { typ: SpanType::RuntimeStart }, Span { typ: SpanType::RuntimeTarminate }] };
    assert_eq!(spans.spans.len(), 3);
}
