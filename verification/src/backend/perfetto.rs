//! Turning recorded spans into Perfetto trace packets.
//!
//! Each run-task span becomes a slice-begin and a slice-end event on the
//! track of its thread; each descriptor span becomes a track descriptor, put
//! in front of every event so that the viewer meets the track before its
//! events.

use vstd::prelude::*;
use fastant::Anchor;
use crate::backend::wire::{lemma_encode_trace_concat, spec_encode_trace};
use crate::platform::{current_thread_id, instant_zero};
use crate::backend::perfetto_protos::{
    opt_chars, spec_event_type_number, DebugAnnotation, DebugAnnotationV, PacketData, PacketDataV,
    ProcessDescriptor, ThreadDescriptor, ThreadDescriptorV, Trace, TracePacket, TracePacketV,
    TrackDescriptor, TrackDescriptorV, TrackEvent, TrackEventType, TrackEventV,
};
use crate::span::{span_unix_nanos, spec_type_name, ProcessDiscriptor, RawSpan, ThreadDiscriptor, Type};

verus! {

/// The trusted uid that descriptor packets carry.
pub const TRUSTED_UID: i32 = 42;

/// The trusted packet sequence id that event packets carry.
pub const TRUSTED_PACKET_SEQUENCE_ID: u32 = 42;

/// The annotations attached to every slice event.
pub open spec fn spec_debug_annotations() -> Seq<DebugAnnotationV> {
    seq![DebugAnnotationV { name: Some("key1"@), string_value: Some("value1"@) }]
}

/// The name every thread track is given.
pub open spec fn spec_thread_name() -> Seq<char> {
    "thread_name"@
}

/// The packet that declares the process track.
pub open spec fn spec_process_descriptor_packet(pid: i32, track_uuid: u64) -> TracePacketV {
    TracePacketV {
        timestamp: None,
        trusted_uid: Some(TRUSTED_UID),
        trusted_packet_sequence_id: None,
        data: Some(
            PacketDataV::TrackDescriptor(
                TrackDescriptorV {
                    uuid: Some(track_uuid),
                    name: None,
                    process: Some(ProcessDescriptor { pid: Some(pid) }),
                    thread: None,
                },
            ),
        ),
        trusted_pid: None,
    }
}

/// The packet that declares the track of a thread.
pub open spec fn spec_thread_descriptor_packet(pid: i32, track_uuid: u64) -> TracePacketV {
    TracePacketV {
        timestamp: None,
        trusted_uid: Some(TRUSTED_UID),
        trusted_packet_sequence_id: None,
        data: Some(
            PacketDataV::TrackDescriptor(
                TrackDescriptorV {
                    uuid: Some(track_uuid),
                    name: Some(spec_thread_name()),
                    process: Some(ProcessDescriptor { pid: Some(pid) }),
                    thread: Some(
                        ThreadDescriptorV {
                            pid: Some(pid),
                            tid: Some((track_uuid as usize) as i32),
                            thread_name: Some(spec_thread_name()),
                        },
                    ),
                },
            ),
        ),
        trusted_pid: None,
    }
}

/// A slice event packet on the track `track_uuid`.
pub open spec fn spec_slice_packet(
    pid: i32,
    track_uuid: u64,
    name: Option<Seq<char>>,
    event_type: TrackEventType,
    timestamp: u64,
) -> TracePacketV {
    TracePacketV {
        timestamp: Some(timestamp),
        trusted_uid: None,
        trusted_packet_sequence_id: Some(TRUSTED_PACKET_SEQUENCE_ID),
        data: Some(
            PacketDataV::TrackEvent(
                TrackEventV {
                    track_uuid: Some(track_uuid),
                    name: name,
                    typ: Some(spec_event_type_number(event_type)),
                    debug_annotations: spec_debug_annotations(),
                },
            ),
        ),
        trusted_pid: Some(pid),
    }
}

/// The span types that the Perfetto backend knows how to write.
pub open spec fn is_reported_type(typ: Type) -> bool {
    !(typ is RuntimeStart) && !(typ is RuntimeTarminate)
}

/// A packet that declares the track of a thread, with the uuid `track_uuid`.
pub open spec fn is_thread_track_packet(p: TracePacketV, track_uuid: u64) -> bool {
    &&& p.data matches Some(PacketDataV::TrackDescriptor(d))
    &&& d.uuid == Some(track_uuid)
    &&& d.thread is Some
}

/// `packets` already declare the thread track `track_uuid`.
pub open spec fn has_thread_track(packets: Seq<TracePacketV>, track_uuid: u64) -> bool {
    exists|i: int| 0 <= i < packets.len() && is_thread_track_packet(#[trigger] packets[i], track_uuid)
}

/// `packets` with a declaration of the thread track `track_uuid` put in
/// front, unless they already declare it.
pub open spec fn spec_with_thread_track(packets: Seq<TracePacketV>, pid: i32, track_uuid: u64) -> Seq<
    TracePacketV,
> {
    if has_thread_track(packets, track_uuid) {
        packets
    } else {
        seq![spec_thread_descriptor_packet(pid, track_uuid)] + packets
    }
}

/// The packets that the Perfetto backend writes for `spans`, in order, when
/// `stamps[i]` are the Unix times of the start and end of `spans[i]`.
/// Descriptors go to the front (the latest first; a thread track only once),
/// events to the back.
pub open spec fn spec_trace(pid: i32, spans: Seq<RawSpan>, stamps: Seq<(u64, u64)>) -> Seq<TracePacketV>
    decreases spans.len(),
{
    if spans.len() == 0 {
        Seq::empty()
    } else {
        let prev = spec_trace(pid, spans.drop_last(), stamps.drop_last());
        let span = spans.last();
        let stamp = stamps.last();
        match span.typ {
            Type::ProcessDiscriptor(_) => seq![spec_process_descriptor_packet(pid, span.thread_id)]
                + prev,
            Type::ThreadDiscriptor(_) => spec_with_thread_track(prev, pid, span.thread_id),
            Type::RunTask(_) => prev + seq![
                spec_slice_packet(
                    pid,
                    span.thread_id,
                    Some(spec_type_name(span.typ)),
                    TrackEventType::SliceBegin,
                    stamp.0,
                ),
                spec_slice_packet(pid, span.thread_id, None, TrackEventType::SliceEnd, stamp.1),
            ],
            _ => prev,
        }
    }
}

/// The descriptor packets that `spans` yield, the latest first.
pub open spec fn spec_descriptor_packets(pid: i32, spans: Seq<RawSpan>) -> Seq<TracePacketV>
    decreases spans.len(),
{
    if spans.len() == 0 {
        Seq::empty()
    } else {
        let prev = spec_descriptor_packets(pid, spans.drop_last());
        let span = spans.last();
        match span.typ {
            Type::ProcessDiscriptor(_) => seq![spec_process_descriptor_packet(pid, span.thread_id)]
                + prev,
            Type::ThreadDiscriptor(_) => spec_with_thread_track(prev, pid, span.thread_id),
            _ => prev,
        }
    }
}

/// The event packets that `spans` yield, in span order.
pub open spec fn spec_event_packets(pid: i32, spans: Seq<RawSpan>, stamps: Seq<(u64, u64)>) -> Seq<
    TracePacketV,
>
    decreases spans.len(),
{
    if spans.len() == 0 {
        Seq::empty()
    } else {
        let prev = spec_event_packets(pid, spans.drop_last(), stamps.drop_last());
        let span = spans.last();
        let stamp = stamps.last();
        match span.typ {
            Type::RunTask(_) => prev + seq![
                spec_slice_packet(
                    pid,
                    span.thread_id,
                    Some(spec_type_name(span.typ)),
                    TrackEventType::SliceBegin,
                    stamp.0,
                ),
                spec_slice_packet(pid, span.thread_id, None, TrackEventType::SliceEnd, stamp.1),
            ],
            _ => prev,
        }
    }
}

/// How many of `spans` are process or thread descriptors.
pub open spec fn count_descriptors(spans: Seq<RawSpan>) -> nat
    decreases spans.len(),
{
    if spans.len() == 0 {
        0
    } else {
        count_descriptors(spans.drop_last()) + if spans.last().typ is ProcessDiscriptor
            || spans.last().typ is ThreadDiscriptor {
            1nat
        } else {
            0nat
        }
    }
}

/// How many of `spans` are task runs.
pub open spec fn count_runs(spans: Seq<RawSpan>) -> nat
    decreases spans.len(),
{
    if spans.len() == 0 {
        0
    } else {
        count_runs(spans.drop_last()) + if spans.last().typ is RunTask {
            1nat
        } else {
            0nat
        }
    }
}

/// A packet that declares a track.
pub open spec fn is_descriptor_packet(p: TracePacketV) -> bool {
    p.data matches Some(PacketDataV::TrackDescriptor(_))
}

/// A packet that carries a track event.
pub open spec fn is_event_packet(p: TracePacketV) -> bool {
    p.data matches Some(PacketDataV::TrackEvent(_))
}

/// Events after the descriptors do not change whether a thread track is
/// declared.
proof fn lemma_events_declare_no_track(d: Seq<TracePacketV>, e: Seq<TracePacketV>, track_uuid: u64)
    requires
        forall|i: int| 0 <= i < e.len() ==> is_event_packet(#[trigger] e[i]),
    ensures
        has_thread_track(d + e, track_uuid) == has_thread_track(d, track_uuid),
{
    if has_thread_track(d, track_uuid) {
        let i = choose|i: int| 0 <= i < d.len() && is_thread_track_packet(#[trigger] d[i], track_uuid);
        assert((d + e)[i] == d[i]);
    }
    if has_thread_track(d + e, track_uuid) {
        let i = choose|i: int|
            0 <= i < (d + e).len() && is_thread_track_packet(#[trigger] (d + e)[i], track_uuid);
        if i >= d.len() {
            assert((d + e)[i] == e[i - d.len()]);
            assert(is_event_packet(e[i - d.len()]));
        } else {
            assert((d + e)[i] == d[i]);
        }
    }
}

/// Every track is declared before any event: the packets written for a batch
/// of spans are all its descriptors, then all its events. There is at most
/// one descriptor packet per descriptor span, and two event packets (a slice
/// begin and a slice end) per task run.
pub proof fn lemma_descriptors_precede_events(pid: i32, spans: Seq<RawSpan>, stamps: Seq<(u64, u64)>)
    requires
        spans.len() == stamps.len(),
    ensures
        spec_trace(pid, spans, stamps) == spec_descriptor_packets(pid, spans) + spec_event_packets(
            pid,
            spans,
            stamps,
        ),
        spec_descriptor_packets(pid, spans).len() <= count_descriptors(spans),
        spec_event_packets(pid, spans, stamps).len() == 2 * count_runs(spans),
        forall|i: int|
            0 <= i < spec_descriptor_packets(pid, spans).len() ==> is_descriptor_packet(
                #[trigger] spec_trace(pid, spans, stamps)[i],
            ),
        forall|i: int|
            spec_descriptor_packets(pid, spans).len() <= i < spec_trace(pid, spans, stamps).len()
                ==> is_event_packet(#[trigger] spec_trace(pid, spans, stamps)[i]),
    decreases spans.len(),
{
    if spans.len() > 0 {
        lemma_descriptors_precede_events(pid, spans.drop_last(), stamps.drop_last());
        let d = spec_descriptor_packets(pid, spans.drop_last());
        let e = spec_event_packets(pid, spans.drop_last(), stamps.drop_last());
        let t0 = spec_trace(pid, spans.drop_last(), stamps.drop_last());
        let t = spec_trace(pid, spans, stamps);
        let dd = spec_descriptor_packets(pid, spans);
        let ee = spec_event_packets(pid, spans, stamps);
        assert forall|i: int| 0 <= i < d.len() implies is_descriptor_packet(#[trigger] d[i]) by {
            assert(t0[i] == d[i]);
        }
        assert forall|i: int| 0 <= i < e.len() implies is_event_packet(#[trigger] e[i]) by {
            assert(t0[d.len() + i] == e[i]);
        }
        match spans.last().typ {
            Type::ProcessDiscriptor(_) => {
                assert(t =~= dd + e);
            },
            Type::ThreadDiscriptor(_) => {
                lemma_events_declare_no_track(d, e, spans.last().thread_id);
                if has_thread_track(d, spans.last().thread_id) {
                    assert(t =~= dd + e);
                } else {
                    assert(t =~= dd + e);
                }
            },
            Type::RunTask(_) => {
                assert(t =~= d + ee);
            },
            _ => {},
        }
        assert(t == dd + ee);
        assert forall|i: int| 0 <= i < dd.len() implies is_descriptor_packet(#[trigger] t[i]) by {
            assert(t[i] == dd[i]);
            if dd.len() > d.len() {
                if i > 0 {
                    assert(dd[i] == d[i - 1]);
                }
            } else {
                assert(dd =~= d);
            }
        }
        assert forall|i: int| dd.len() <= i < t.len() implies is_event_packet(#[trigger] t[i]) by {
            let k = i - dd.len();
            assert(t[i] == ee[k]);
            if k < e.len() {
                assert(ee[k] == e[k]);
            }
        }
    }
}

/// A batch of task runs becomes, span after span, a slice begin at the
/// span's start time and a slice end at its end time, both on the track of
/// the span's thread; the begin carries the span's type name, the end none.
pub proof fn lemma_run_slices(pid: i32, spans: Seq<RawSpan>, stamps: Seq<(u64, u64)>)
    requires
        spans.len() == stamps.len(),
        forall|i: int| 0 <= i < spans.len() ==> (#[trigger] spans[i].typ) is RunTask,
    ensures
        spec_trace(pid, spans, stamps).len() == 2 * spans.len(),
        forall|i: int|
            0 <= i < spans.len() ==> {
                let begin = #[trigger] spec_trace(pid, spans, stamps)[2 * i];
                let end = spec_trace(pid, spans, stamps)[2 * i + 1];
                &&& begin.timestamp == Some(stamps[i].0)
                &&& end.timestamp == Some(stamps[i].1)
                &&& begin.trusted_pid == Some(pid)
                &&& end.trusted_pid == Some(pid)
                &&& begin.data matches Some(PacketDataV::TrackEvent(e)) && e.track_uuid == Some(
                    spans[i].thread_id,
                ) && e.typ == Some(1i32) && e.name == Some("run_task"@)
                &&& end.data matches Some(PacketDataV::TrackEvent(e)) && e.track_uuid == Some(
                    spans[i].thread_id,
                ) && e.typ == Some(2i32) && e.name == None::<Seq<char>>
            },
    decreases spans.len(),
{
    if spans.len() > 0 {
        let n = spans.len() - 1;
        let prefix = spans.drop_last();
        let prefix_stamps = stamps.drop_last();
        assert forall|i: int| 0 <= i < prefix.len() implies (#[trigger] prefix[i].typ) is RunTask by {
            assert(prefix[i] == spans[i]);
        }
        lemma_run_slices(pid, prefix, prefix_stamps);
        let prev = spec_trace(pid, prefix, prefix_stamps);
        let t = spec_trace(pid, spans, stamps);
        assert(spans[n].typ is RunTask);
        assert(spans.last() == spans[n]);
        assert(t == prev + seq![
            spec_slice_packet(
                pid,
                spans[n].thread_id,
                Some(spec_type_name(spans[n].typ)),
                TrackEventType::SliceBegin,
                stamps[n].0,
            ),
            spec_slice_packet(pid, spans[n].thread_id, None, TrackEventType::SliceEnd, stamps[n].1),
        ]);
        assert forall|i: int| 0 <= i < spans.len() implies {
            let begin = #[trigger] t[2 * i];
            let end = t[2 * i + 1];
            &&& begin.timestamp == Some(stamps[i].0)
            &&& end.timestamp == Some(stamps[i].1)
            &&& begin.trusted_pid == Some(pid)
            &&& end.trusted_pid == Some(pid)
            &&& begin.data matches Some(PacketDataV::TrackEvent(e)) && e.track_uuid == Some(
                spans[i].thread_id,
            ) && e.typ == Some(1i32) && e.name == Some("run_task"@)
            &&& end.data matches Some(PacketDataV::TrackEvent(e)) && e.track_uuid == Some(
                spans[i].thread_id,
            ) && e.typ == Some(2i32) && e.name == None::<Seq<char>>
        } by {
            if i < n {
                assert(t[2 * i] == prev[2 * i]);
                assert(t[2 * i + 1] == prev[2 * i + 1]);
                assert(prefix[i] == spans[i]);
                assert(prefix_stamps[i] == stamps[i]);
            }
        }
    }
}

/// Batches written one after another to the trace file read as one trace:
/// the bytes of the trace for `a` followed by those of the trace for `b` are
/// the bytes of one trace holding the packets of both, in that order.
pub proof fn lemma_batches_append_to_file(
    pid: i32,
    a: Seq<RawSpan>,
    a_stamps: Seq<(u64, u64)>,
    b: Seq<RawSpan>,
    b_stamps: Seq<(u64, u64)>,
)
    ensures
        spec_encode_trace(spec_trace(pid, a, a_stamps)) + spec_encode_trace(spec_trace(pid, b, b_stamps))
            == spec_encode_trace(spec_trace(pid, a, a_stamps) + spec_trace(pid, b, b_stamps)),
{
    lemma_encode_trace_concat(spec_trace(pid, a, a_stamps), spec_trace(pid, b, b_stamps));
}

/// Docs: https://perfetto.dev/docs/reference/trace-packet-proto#DebugAnnotation
pub fn create_debug_annotations() -> (annotations: Vec<DebugAnnotation>)
    ensures
        annotations@.map_values(|d: DebugAnnotation| d@) == spec_debug_annotations(),
{
    let debug_annotation = DebugAnnotation {
        name: Some("key1".to_string()),
        string_value: Some("value1".to_string()),
    };
    let annotations = vec![debug_annotation];
    proof {
        assert(annotations@.map_values(|d: DebugAnnotation| d@) =~= spec_debug_annotations());
    }
    annotations
}

/// The schema number of an optional event type.
pub open spec fn spec_opt_event_type(event_type: Option<TrackEventType>) -> Option<i32> {
    match event_type {
        Some(t) => Some(spec_event_type_number(t)),
        None => None,
    }
}

/// Docs: https://perfetto.dev/docs/reference/trace-packet-proto#TrackEvent
pub fn create_track_event(
    name: Option<String>,
    track_uuid: u64,
    event_type: Option<TrackEventType>,
    debug_annotations: Vec<DebugAnnotation>,
) -> (event: TrackEvent)
    ensures
        event.track_uuid == Some(track_uuid),
        event.name == name,
        event.typ == spec_opt_event_type(event_type),
        event.debug_annotations == debug_annotations,
{
    let typ = match event_type {
        Some(t) => Some(t.number()),
        None => None,
    };
    TrackEvent { track_uuid: Some(track_uuid), name, typ, debug_annotations }
}

/// Docs: https://perfetto.dev/docs/reference/trace-packet-proto#ProcessDescriptor
pub fn create_process_descriptor(pid: i32) -> (descriptor: ProcessDescriptor)
    ensures
        descriptor == (ProcessDescriptor { pid: Some(pid) }),
{
    ProcessDescriptor { pid: Some(pid) }
}

/// Docs https://perfetto.dev/docs/reference/trace-packet-proto#TrackDescriptor
pub fn create_track_descriptor(
    uuid: u64,
    name: Option<String>,
    process: Option<ProcessDescriptor>,
    thread: Option<ThreadDescriptor>,
) -> (descriptor: TrackDescriptor)
    ensures
        descriptor.uuid == Some(uuid),
        descriptor.name == name,
        descriptor.process == process,
        descriptor.thread == thread,
{
    TrackDescriptor { uuid: Some(uuid), name, process, thread }
}

/// Docs https://perfetto.dev/docs/reference/trace-packet-proto#ThreadDescriptor
pub fn create_thread_descriptor(pid: i32, thread_id: usize, thread_name: String) -> (descriptor:
    ThreadDescriptor)
    ensures
        descriptor.pid == Some(pid),
        descriptor.tid == Some(thread_id as i32),
        descriptor.thread_name == Some(thread_name),
{
    ThreadDescriptor { pid: Some(pid), tid: Some(thread_id as i32), thread_name: Some(thread_name) }
}

/// Puts `packet` in front of the packets of `trace`.
fn prepend_packet(trace: &mut Trace, packet: TracePacket)
    ensures
        final(trace)@ == seq![packet@] + old(trace)@,
{
    trace.packet.insert(0, packet);
    proof {
        assert(trace@ =~= seq![packet@] + old(trace)@);
    }
}

/// Appends `packet` after the packets of `trace`.
fn append_packet(trace: &mut Trace, packet: TracePacket)
    ensures
        final(trace)@ == old(trace)@.push(packet@),
{
    trace.packet.push(packet);
    proof {
        assert(trace@ =~= old(trace)@.push(packet@));
    }
}

/// Appends a thread descriptor packet to the trace if not already sent.
pub fn append_thread_descriptor(trace: &mut Trace, pid: i32, track_uuid: u64)
    ensures
        final(trace)@ == spec_with_thread_track(old(trace)@, pid, track_uuid),
{
    let n = trace.packet.len();
    let mut i: usize = 0;
    while i < n
        invariant
            n == trace@.len(),
            i <= n,
            forall|k: int| 0 <= k < i ==> !is_thread_track_packet(#[trigger] trace@[k], track_uuid),
        decreases n - i,
    {
        let sent = match &trace.packet[i].data {
            Some(PacketData::TrackDescriptor(d)) => {
                let same_track = match d.uuid {
                    Some(uuid) => uuid == track_uuid,
                    None => false,
                };
                same_track && d.thread.is_some()
            },
            _ => false,
        };
        if sent {
            proof {
                assert(is_thread_track_packet(trace@[i as int], track_uuid));
            }
            return;
        }
        i = i + 1;
    }
    proof {
        assert(!has_thread_track(trace@, track_uuid));
    }
    let thread_descriptor = create_thread_descriptor(
        pid,
        track_uuid as usize,
        "thread_name".to_string(),
    );
    let track_descriptor = create_track_descriptor(
        track_uuid,
        Some("thread_name".to_string()),
        Some(create_process_descriptor(pid)),
        Some(thread_descriptor),
    );
    let packet = TracePacket {
        timestamp: None,
        trusted_uid: Some(TRUSTED_UID),
        trusted_packet_sequence_id: None,
        data: Some(PacketData::TrackDescriptor(track_descriptor)),
        trusted_pid: None,
    };
    proof {
        assert(packet@ =~~= spec_thread_descriptor_packet(pid, track_uuid));
    }
    // Insert the packet at the beginning
    prepend_packet(trace, packet);
}

/// Appends a process descriptor packet to the trace.
pub fn append_process_descriptor(trace: &mut Trace, pid: i32, track_uuid: u64)
    ensures
        final(trace)@ == seq![spec_process_descriptor_packet(pid, track_uuid)] + old(trace)@,
{
    let process_descriptor = create_process_descriptor(pid);
    let track_descriptor = create_track_descriptor(track_uuid, None, Some(process_descriptor), None);
    let packet = TracePacket {
        timestamp: None,
        trusted_uid: Some(TRUSTED_UID),
        trusted_packet_sequence_id: None,
        data: Some(PacketData::TrackDescriptor(track_descriptor)),
        trusted_pid: None,
    };
    proof {
        assert(packet@ =~~= spec_process_descriptor_packet(pid, track_uuid));
    }
    // Insert the packet at the beginning
    prepend_packet(trace, packet);
}

/// A slice event packet on the track `track_uuid`.
fn slice_packet(
    pid: i32,
    track_uuid: u64,
    name: Option<String>,
    event_type: TrackEventType,
    timestamp: u64,
) -> (packet: TracePacket)
    ensures
        packet@ == spec_slice_packet(pid, track_uuid, opt_chars(name), event_type, timestamp),
{
    let debug_annotations = create_debug_annotations();
    let event = create_track_event(name, track_uuid, Some(event_type), debug_annotations);
    let packet = TracePacket {
        timestamp: Some(timestamp),
        trusted_uid: None,
        trusted_packet_sequence_id: Some(TRUSTED_PACKET_SEQUENCE_ID),
        data: Some(PacketData::TrackEvent(event)),
        trusted_pid: Some(pid),
    };
    proof {
        assert(packet@ =~~= spec_slice_packet(pid, track_uuid, opt_chars(name), event_type, timestamp));
    }
    packet
}

/// The packets for `spans`, when `stamps[i]` holds the Unix times of the
/// start and the end of `spans[i]`.
pub fn build_trace(pid: i32, spans: &[RawSpan], stamps: &[(u64, u64)]) -> (trace: Trace)
    requires
        spans@.len() == stamps@.len(),
        forall|i: int| 0 <= i < spans@.len() ==> is_reported_type(#[trigger] spans@[i].typ),
    ensures
        trace@ == spec_trace(pid, spans@, stamps@),
{
    let mut trace = Trace::new();
    let n = spans.len();
    let mut i: usize = 0;
    while i < n
        invariant
            n == spans@.len(),
            n == stamps@.len(),
            i <= n,
            forall|k: int| 0 <= k < spans@.len() ==> is_reported_type(#[trigger] spans@[k].typ),
            trace@ == spec_trace(pid, spans@.take(i as int), stamps@.take(i as int)),
        decreases n - i,
    {
        let span = &spans[i];
        proof {
            assert(spans@.take(i + 1).drop_last() =~= spans@.take(i as int));
            assert(stamps@.take(i + 1).drop_last() =~= stamps@.take(i as int));
            assert(spans@.take(i + 1).last() == spans@[i as int]);
            assert(stamps@.take(i + 1).last() == stamps@[i as int]);
            assert(is_reported_type(spans@[i as int].typ));
        }
        match &span.typ {
            Type::ProcessDiscriptor(_) => {
                append_process_descriptor(&mut trace, pid, span.thread_id);
            },
            Type::ThreadDiscriptor(_) => {
                append_thread_descriptor(&mut trace, pid, span.thread_id);
            },
            Type::RunTask(_) => {
                // Start event packet
                let start_packet = slice_packet(
                    pid,
                    span.thread_id,
                    Some(span.typ.type_name_string()),
                    TrackEventType::SliceBegin,
                    stamps[i].0,
                );
                append_packet(&mut trace, start_packet);
                // End event packet
                let end_packet = slice_packet(
                    pid,
                    span.thread_id,
                    None,
                    TrackEventType::SliceEnd,
                    stamps[i].1,
                );
                append_packet(&mut trace, end_packet);
            },
            Type::RuntimeStart(_) => {},
            Type::RuntimeTarminate(_) => {},
        }
        i = i + 1;
    }
    proof {
        assert(spans@.take(n as int) =~= spans@);
        assert(stamps@.take(n as int) =~= stamps@);
    }
    trace
}

/// The Perfetto packets for a batch of spans, as the reporter writes them.
/// The start and end instants of each run-task span are read as Unix times
/// against `anchor`; the packets are those of `spec_trace` for the times that
/// came back.
pub fn trace_of_spans(pid: i32, spans: &[RawSpan], anchor: &Anchor) -> (trace: Trace)
    requires
        forall|i: int| 0 <= i < spans@.len() ==> is_reported_type(#[trigger] spans@[i].typ),
        forall|i: int| 0 <= i < spans@.len() && (#[trigger] spans@[i].typ is RunTask) ==> spans@[i].is_stamped(),
    ensures
        exists|stamps: Seq<(u64, u64)>|
            {
                &&& stamps.len() == spans@.len()
                &&& trace@ == spec_trace(pid, spans@, stamps)
                &&& forall|i: int|
                    0 <= i < spans@.len() && (#[trigger] spans@[i].typ is RunTask) ==> call_ensures(
                        span_unix_nanos,
                        (&spans@[i], anchor),
                        stamps[i],
                    )
            },
{
    let n = spans.len();
    let mut stamps: Vec<(u64, u64)> = Vec::new();
    let mut i: usize = 0;
    while i < n
        invariant
            n == spans@.len(),
            i <= n,
            stamps@.len() == i,
            forall|k: int| 0 <= k < spans@.len() && (#[trigger] spans@[k].typ is RunTask) ==> spans@[k].is_stamped(),
            forall|k: int|
                0 <= k < i && (#[trigger] spans@[k].typ is RunTask) ==> call_ensures(
                    span_unix_nanos,
                    (&spans@[k], anchor),
                    stamps@[k],
                ),
        decreases n - i,
    {
        let span = &spans[i];
        let stamp = match &span.typ {
            Type::RunTask(_) => span_unix_nanos(span, anchor),
            _ => (0, 0),
        };
        stamps.push(stamp);
        i = i + 1;
    }
    let trace = build_trace(pid, spans, stamps.as_slice());
    trace
}

/// This is called when a SpanQueue at local storage gets initialized.
pub fn thread_descriptor() -> (span: RawSpan)
    ensures
        span.typ is ThreadDiscriptor,
{
    RawSpan::new(
        Type::ThreadDiscriptor(ThreadDiscriptor {}),
        current_thread_id() as u64,
        instant_zero(),
        instant_zero(),
    )
}

/// This is called when the consumer publishes the process for the first time.
pub fn process_descriptor() -> (span: RawSpan)
    ensures
        span.typ is ProcessDiscriptor,
{
    RawSpan::new(
        Type::ProcessDiscriptor(ProcessDiscriptor {}),
        current_thread_id() as u64,
        instant_zero(),
        instant_zero(),
    )
}

} // verus!
