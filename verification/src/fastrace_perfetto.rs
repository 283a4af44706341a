//! A Perfetto reporter for `fastrace`: each finished span becomes a slice on
//! the track of the reporting thread, after a one-time process descriptor
//! and thread descriptor.

pub mod fast;

use vstd::prelude::*;
use crate::backend::perfetto::{TRUSTED_PACKET_SEQUENCE_ID, TRUSTED_UID};
use crate::platform::current_thread_id;
use crate::backend::perfetto_protos::{
    opt_chars, spec_event_type_number, PacketData, PacketDataV, ProcessDescriptor,
    ThreadDescriptor, ThreadDescriptorV, Trace, TracePacket, TracePacketV, TrackDescriptor,
    TrackDescriptorV, TrackEvent, TrackEventType, TrackEventV,
};

verus! {

/// What the reporter reads of a finished `fastrace` span.
pub struct ReportedSpan {
    pub name: String,
    pub begin_time_unix_ns: u64,
    pub duration_ns: u64,
}

/// Whether the process and thread descriptors have been written yet.
pub struct ReporterState {
    pub process_descriptor_sent: bool,
    pub thread_descriptor_sent: bool,
}

impl ReporterState {
    /// Nothing sent yet.
    pub fn new() -> (state: ReporterState)
        ensures
            !state.process_descriptor_sent,
            !state.thread_descriptor_sent,
    {
        ReporterState { process_descriptor_sent: false, thread_descriptor_sent: false }
    }
}

/// The characters of an optional string slice.
pub open spec fn opt_str_chars(s: Option<&str>) -> Option<Seq<char>> {
    match s {
        Some(s) => Some(s@),
        None => None,
    }
}

/// The packet that declares the process track.
pub open spec fn spec_process_packet(pid: i32, track_uuid: u64) -> TracePacketV {
    TracePacketV {
        timestamp: None,
        trusted_uid: Some(TRUSTED_UID),
        trusted_packet_sequence_id: None,
        data: Some(
            PacketDataV::TrackDescriptor(
                TrackDescriptorV {
                    uuid: Some(track_uuid),
                    name: None,
                    process: Some(ProcessDescriptor { pid: Some(pid) }),
                    thread: None,
                },
            ),
        ),
        trusted_pid: None,
    }
}

/// The packet that declares the track of the thread `tid`, named
/// `thread_name`.
pub open spec fn spec_thread_packet(
    pid: i32,
    track_uuid: u64,
    thread_name: Option<Seq<char>>,
    tid: i32,
) -> TracePacketV {
    TracePacketV {
        timestamp: None,
        trusted_uid: Some(TRUSTED_UID),
        trusted_packet_sequence_id: None,
        data: Some(
            PacketDataV::TrackDescriptor(
                TrackDescriptorV {
                    uuid: Some(track_uuid),
                    name: thread_name,
                    process: Some(ProcessDescriptor { pid: Some(pid) }),
                    thread: Some(
                        ThreadDescriptorV { pid: Some(pid), tid: Some(tid), thread_name: thread_name },
                    ),
                },
            ),
        ),
        trusted_pid: None,
    }
}

/// A slice event packet, without annotations.
pub open spec fn spec_event_packet(
    pid: i32,
    track_uuid: u64,
    name: Option<Seq<char>>,
    event_type: TrackEventType,
    timestamp: u64,
) -> TracePacketV {
    TracePacketV {
        timestamp: Some(timestamp),
        trusted_uid: None,
        trusted_packet_sequence_id: Some(TRUSTED_PACKET_SEQUENCE_ID),
        data: Some(
            PacketDataV::TrackEvent(
                TrackEventV {
                    track_uuid: Some(track_uuid),
                    name: name,
                    typ: Some(spec_event_type_number(event_type)),
                    debug_annotations: Seq::empty(),
                },
            ),
        ),
        trusted_pid: Some(pid),
    }
}

/// The span ends without overflowing `u64`.
pub open spec fn ends_fit(spans: Seq<ReportedSpan>) -> bool {
    forall|i: int|
        0 <= i < spans.len() ==> #[trigger] spans[i].begin_time_unix_ns + spans[i].duration_ns
            <= u64::MAX
}

/// The slice packets of `spans`: a begin at the span's start and an end at
/// its start plus its duration, span after span.
pub open spec fn spec_span_events(pid: i32, track_uuid: u64, spans: Seq<ReportedSpan>) -> Seq<
    TracePacketV,
>
    decreases spans.len(),
{
    if spans.len() == 0 {
        Seq::empty()
    } else {
        let s = spans.last();
        spec_span_events(pid, track_uuid, spans.drop_last()) + seq![
            spec_event_packet(
                pid,
                track_uuid,
                Some(s.name@),
                TrackEventType::SliceBegin,
                s.begin_time_unix_ns,
            ),
            spec_event_packet(
                pid,
                track_uuid,
                None,
                TrackEventType::SliceEnd,
                (s.begin_time_unix_ns + s.duration_ns) as u64,
            ),
        ]
    }
}

/// Each reported span becomes a slice begin at its begin time and a slice
/// end at its begin time plus its duration, in span order, on the track
/// `track_uuid`; the begin carries the span's name, the end none.
pub proof fn lemma_report_slices(pid: i32, track_uuid: u64, spans: Seq<ReportedSpan>)
    requires
        ends_fit(spans),
    ensures
        spec_span_events(pid, track_uuid, spans).len() == 2 * spans.len(),
        forall|i: int|
            0 <= i < spans.len() ==> {
                let begin = #[trigger] spec_span_events(pid, track_uuid, spans)[2 * i];
                let end = spec_span_events(pid, track_uuid, spans)[2 * i + 1];
                &&& begin.timestamp == Some(spans[i].begin_time_unix_ns)
                &&& end.timestamp is Some
                &&& end.timestamp.unwrap() == spans[i].begin_time_unix_ns + spans[i].duration_ns
                &&& begin.trusted_pid == Some(pid)
                &&& end.trusted_pid == Some(pid)
                &&& begin.data matches Some(PacketDataV::TrackEvent(e)) && e.track_uuid == Some(
                    track_uuid,
                ) && e.typ == Some(1i32) && e.name == Some(spans[i].name@)
                &&& end.data matches Some(PacketDataV::TrackEvent(e)) && e.track_uuid == Some(
                    track_uuid,
                ) && e.typ == Some(2i32) && e.name == None::<Seq<char>>
            },
    decreases spans.len(),
{
    if spans.len() > 0 {
        let n = spans.len() - 1;
        let prefix = spans.drop_last();
        assert forall|i: int| 0 <= i < prefix.len() implies #[trigger] prefix[i].begin_time_unix_ns
            + prefix[i].duration_ns <= u64::MAX by {
            assert(prefix[i] == spans[i]);
            assert(spans[i].begin_time_unix_ns + spans[i].duration_ns <= u64::MAX);
        }
        lemma_report_slices(pid, track_uuid, prefix);
        let prev = spec_span_events(pid, track_uuid, prefix);
        let t = spec_span_events(pid, track_uuid, spans);
        assert(spans.last() == spans[n]);
        assert(spans[n].begin_time_unix_ns + spans[n].duration_ns <= u64::MAX);
        assert forall|i: int| 0 <= i < spans.len() implies {
            let begin = #[trigger] t[2 * i];
            let end = t[2 * i + 1];
            &&& begin.timestamp == Some(spans[i].begin_time_unix_ns)
            &&& end.timestamp is Some
            &&& end.timestamp.unwrap() == spans[i].begin_time_unix_ns + spans[i].duration_ns
            &&& begin.trusted_pid == Some(pid)
            &&& end.trusted_pid == Some(pid)
            &&& begin.data matches Some(PacketDataV::TrackEvent(e)) && e.track_uuid == Some(
                track_uuid,
            ) && e.typ == Some(1i32) && e.name == Some(spans[i].name@)
            &&& end.data matches Some(PacketDataV::TrackEvent(e)) && e.track_uuid == Some(
                track_uuid,
            ) && e.typ == Some(2i32) && e.name == None::<Seq<char>>
        } by {
            if i < n {
                assert(t[2 * i] == prev[2 * i]);
                assert(t[2 * i + 1] == prev[2 * i + 1]);
                assert(prefix[i] == spans[i]);
            }
        }
    }
}

/// The slices of a report are event packets only, two per span: once both
/// descriptors have been sent (see `build_report`), a report writes no
/// descriptor and exactly twice as many packets as it has spans.
pub proof fn lemma_reports_hold_two_events_per_span(pid: i32, track_uuid: u64, spans: Seq<ReportedSpan>)
    ensures
        spec_span_events(pid, track_uuid, spans).len() == 2 * spans.len(),
        forall|i: int|
            0 <= i < spec_span_events(pid, track_uuid, spans).len() ==> (#[trigger] spec_span_events(
                pid,
                track_uuid,
                spans,
            )[i]).data matches Some(PacketDataV::TrackEvent(_)),
    decreases spans.len(),
{
    if spans.len() > 0 {
        lemma_reports_hold_two_events_per_span(pid, track_uuid, spans.drop_last());
        let prev = spec_span_events(pid, track_uuid, spans.drop_last());
        let all = spec_span_events(pid, track_uuid, spans);
        assert forall|i: int| 0 <= i < all.len() implies (#[trigger] all[i]).data matches Some(
            PacketDataV::TrackEvent(_),
        ) by {
            if i < prev.len() {
                assert(all[i] == prev[i]);
            }
        }
    }
}

/// Docs: https://perfetto.dev/docs/reference/trace-packet-proto#TrackEvent
pub fn create_track_event(name: Option<String>, track_uuid: u64, event_type: Option<TrackEventType>) -> (event: TrackEvent)
    ensures
        event.track_uuid == Some(track_uuid),
        event.name == name,
        event.typ == crate::backend::perfetto::spec_opt_event_type(event_type),
        event.debug_annotations@ == Seq::<crate::backend::perfetto_protos::DebugAnnotation>::empty(),
{
    let typ = match event_type {
        Some(t) => Some(t.number()),
        None => None,
    };
    TrackEvent { track_uuid: Some(track_uuid), name, typ, debug_annotations: Vec::new() }
}

/// Docs: https://perfetto.dev/docs/reference/trace-packet-proto#ProcessDescriptor
pub fn create_process_descriptor(pid: i32) -> (descriptor: ProcessDescriptor)
    ensures
        descriptor == (ProcessDescriptor { pid: Some(pid) }),
{
    ProcessDescriptor { pid: Some(pid) }
}

/// An optional owned copy of a string slice.
fn opt_to_string(s: Option<&str>) -> (owned: Option<String>)
    ensures
        opt_chars(owned) == opt_str_chars(s),
{
    match s {
        Some(s) => Some(s.to_string()),
        None => None,
    }
}

/// Docs https://perfetto.dev/docs/reference/trace-packet-proto#TrackDescriptor
pub fn create_track_descriptor(
    uuid: u64,
    name: Option<&str>,
    process: Option<ProcessDescriptor>,
    thread: Option<ThreadDescriptor>,
) -> (descriptor: TrackDescriptor)
    ensures
        descriptor.uuid == Some(uuid),
        opt_chars(descriptor.name) == opt_str_chars(name),
        descriptor.process == process,
        descriptor.thread == thread,
{
    TrackDescriptor { uuid: Some(uuid), name: opt_to_string(name), process, thread }
}

/// Docs https://perfetto.dev/docs/reference/trace-packet-proto#ThreadDescriptor
///
/// The thread id is that of the calling thread.
pub fn create_thread_descriptor(pid: i32, thread_name: Option<&str>) -> (descriptor: ThreadDescriptor)
    ensures
        descriptor.pid == Some(pid),
        descriptor.tid is Some,
        opt_chars(descriptor.thread_name) == opt_str_chars(thread_name),
{
    ThreadDescriptor {
        pid: Some(pid),
        tid: Some(current_thread_id() as i32),
        thread_name: opt_to_string(thread_name),
    }
}

/// Appends a thread descriptor packet to the trace if not already sent.
pub fn append_thread_descriptor(
    trace: &mut Trace,
    sent: &mut bool,
    pid: i32,
    track_uuid: u64,
    thread_name: Option<&str>,
)
    ensures
        *final(sent),
        *old(sent) ==> final(trace)@ == old(trace)@,
        !*old(sent) ==> exists|tid: i32|
            final(trace)@ == seq![spec_thread_packet(pid, track_uuid, opt_str_chars(thread_name), tid)]
                + old(trace)@,
{
    let descriptor_sent = *sent;
    *sent = true;
    if !descriptor_sent {
        let thread_descriptor = create_thread_descriptor(pid, thread_name);
        let ghost tid = thread_descriptor.tid.unwrap();
        let track_descriptor = create_track_descriptor(
            track_uuid,
            thread_name,
            Some(create_process_descriptor(pid)),
            Some(thread_descriptor),
        );
        let packet = TracePacket {
            timestamp: None,
            trusted_uid: Some(TRUSTED_UID),
            trusted_packet_sequence_id: None,
            data: Some(PacketData::TrackDescriptor(track_descriptor)),
            trusted_pid: None,
        };
        proof {
            assert(packet@ =~~= spec_thread_packet(pid, track_uuid, opt_str_chars(thread_name), tid));
        }
        // Insert the packet at the beginning if needed
        trace.packet.insert(0, packet);
        proof {
            assert(trace@ =~= seq![packet@] + old(trace)@);
        }
    }
}

/// Appends a process descriptor packet to the trace if not already sent.
pub fn append_process_descriptor(trace: &mut Trace, sent: &mut bool, pid: i32, track_uuid: u64)
    ensures
        *final(sent),
        *old(sent) ==> final(trace)@ == old(trace)@,
        !*old(sent) ==> final(trace)@ == seq![spec_process_packet(pid, track_uuid)] + old(trace)@,
{
    let descriptor_sent = *sent;
    *sent = true;
    if !descriptor_sent {
        let process_descriptor = create_process_descriptor(pid);
        let track_descriptor = create_track_descriptor(
            track_uuid,
            None,
            Some(process_descriptor),
            None,
        );
        let packet = TracePacket {
            timestamp: None,
            trusted_uid: Some(TRUSTED_UID),
            trusted_packet_sequence_id: None,
            data: Some(PacketData::TrackDescriptor(track_descriptor)),
            trusted_pid: None,
        };
        proof {
            assert(packet@ =~~= spec_process_packet(pid, track_uuid));
        }
        // Insert the packet at the beginning
        trace.packet.insert(0, packet);
        proof {
            assert(trace@ =~= seq![packet@] + old(trace)@);
        }
    }
}

/// A slice event packet, without annotations.
fn event_packet(
    pid: i32,
    track_uuid: u64,
    name: Option<String>,
    event_type: TrackEventType,
    timestamp: u64,
) -> (packet: TracePacket)
    ensures
        packet@ == spec_event_packet(pid, track_uuid, opt_chars(name), event_type, timestamp),
{
    let event = create_track_event(name, track_uuid, Some(event_type));
    let packet = TracePacket {
        timestamp: Some(timestamp),
        trusted_uid: None,
        trusted_packet_sequence_id: Some(TRUSTED_PACKET_SEQUENCE_ID),
        data: Some(PacketData::TrackEvent(event)),
        trusted_pid: Some(pid),
    };
    proof {
        assert(packet@ =~~= spec_event_packet(pid, track_uuid, opt_chars(name), event_type, timestamp));
    }
    packet
}

/// The trace that one report writes: the process descriptor and the thread
/// descriptor, each only the first time, then a slice per span on the track
/// `track_uuid` of the reporting thread.
pub fn build_report(
    state: &mut ReporterState,
    pid: i32,
    track_uuid: u64,
    thread_name: Option<&str>,
    spans: Vec<ReportedSpan>,
) -> (trace: Trace)
    requires
        ends_fit(spans@),
    ensures
        final(state).process_descriptor_sent,
        final(state).thread_descriptor_sent,
        exists|tid: i32|
            trace@ == (if old(state).thread_descriptor_sent {
                Seq::empty()
            } else {
                seq![spec_thread_packet(pid, track_uuid, opt_str_chars(thread_name), tid)]
            }) + (if old(state).process_descriptor_sent {
                Seq::empty()
            } else {
                seq![spec_process_packet(pid, track_uuid)]
            }) + spec_span_events(pid, track_uuid, spans@),
{
    let mut trace = Trace::new();

    // Ensure process and thread descriptors are sent
    append_process_descriptor(&mut trace, &mut state.process_descriptor_sent, pid, track_uuid);
    let ghost after_process = trace@;
    append_thread_descriptor(
        &mut trace,
        &mut state.thread_descriptor_sent,
        pid,
        track_uuid,
        thread_name,
    );
    let ghost descriptors = trace@;
    let ghost tid: i32 = if old(state).thread_descriptor_sent {
        0
    } else {
        choose|t: i32|
            descriptors == seq![spec_thread_packet(pid, track_uuid, opt_str_chars(thread_name), t)]
                + after_process
    };
    let ghost thread_part: Seq<TracePacketV> = if old(state).thread_descriptor_sent {
        Seq::empty()
    } else {
        seq![spec_thread_packet(pid, track_uuid, opt_str_chars(thread_name), tid)]
    };
    let ghost process_part: Seq<TracePacketV> = if old(state).process_descriptor_sent {
        Seq::empty()
    } else {
        seq![spec_process_packet(pid, track_uuid)]
    };
    proof {
        assert(descriptors =~= thread_part + process_part);
    }
    let ghost all = spans@;
    let mut spans = spans;
    let n = spans.len();
    let mut i: usize = 0;
    while i < n
        invariant
            n == spans@.len(),
            n == all.len(),
            i <= n,
            ends_fit(all),
            forall|k: int| i <= k < n ==> #[trigger] spans@[k] == all[k],
            trace@ == descriptors + spec_span_events(pid, track_uuid, all.take(i as int)),
        decreases n - i,
    {
        let mut span = ReportedSpan { name: String::new(), begin_time_unix_ns: 0, duration_ns: 0 };
        std::mem::swap(&mut spans[i], &mut span);
        proof {
            assert(span == all[i as int]);
            assert(all.take(i + 1).drop_last() =~= all.take(i as int));
            assert(all.take(i + 1).last() == all[i as int]);
            assert(span.begin_time_unix_ns + span.duration_ns <= u64::MAX);
        }
        let begin = span.begin_time_unix_ns;
        let end = span.begin_time_unix_ns + span.duration_ns;
        // Start event packet
        let start_packet = event_packet(
            pid,
            track_uuid,
            Some(span.name),
            TrackEventType::SliceBegin,
            begin,
        );
        let ghost before = trace@;
        let ghost start_view = start_packet@;
        trace.packet.push(start_packet);
        proof {
            assert(trace@ =~= before.push(start_view));
        }
        // End event packet
        let end_packet = event_packet(pid, track_uuid, None, TrackEventType::SliceEnd, end);
        let ghost end_view = end_packet@;
        trace.packet.push(end_packet);
        proof {
            assert(trace@ =~= before.push(start_view).push(end_view));
            assert(trace@ =~= descriptors + spec_span_events(pid, track_uuid, all.take(i + 1)));
        }
        i = i + 1;
    }
    proof {
        assert(all.take(n as int) =~= all);
        assert(trace@ == thread_part + process_part + spec_span_events(pid, track_uuid, all));
    }
    trace
}

} // verus!
