//! The part of the Perfetto trace schema that the tracer writes, as plain
//! values, and a view of each message over mathematical values.
//!
//! Field numbers and wire encoding live in `wire`.

use vstd::prelude::*;

verus! {

/// `DebugAnnotation`: a named value attached to an event.
pub struct DebugAnnotation {
    pub name: Option<String>,
    pub string_value: Option<String>,
}

/// `TrackEvent.Type`.
#[derive(Clone, Copy, Debug)]
pub enum TrackEventType {
    Unspecified,
    SliceBegin,
    SliceEnd,
    Instant,
    Counter,
}

/// `TrackEvent`: one event on a track.
pub struct TrackEvent {
    pub track_uuid: Option<u64>,
    pub name: Option<String>,
    pub typ: Option<i32>,
    pub debug_annotations: Vec<DebugAnnotation>,
}

/// `ProcessDescriptor`.
#[derive(Clone, Copy, Debug)]
pub struct ProcessDescriptor {
    pub pid: Option<i32>,
}

/// `ThreadDescriptor`.
pub struct ThreadDescriptor {
    pub pid: Option<i32>,
    pub tid: Option<i32>,
    pub thread_name: Option<String>,
}

/// `TrackDescriptor`: declares a track and what it belongs to.
pub struct TrackDescriptor {
    pub uuid: Option<u64>,
    pub name: Option<String>,
    pub process: Option<ProcessDescriptor>,
    pub thread: Option<ThreadDescriptor>,
}

/// The payload of a `TracePacket`.
pub enum PacketData {
    TrackEvent(TrackEvent),
    TrackDescriptor(TrackDescriptor),
}

/// `TracePacket`.
pub struct TracePacket {
    pub timestamp: Option<u64>,
    pub trusted_uid: Option<i32>,
    pub trusted_packet_sequence_id: Option<u32>,
    pub data: Option<PacketData>,
    pub trusted_pid: Option<i32>,
}

/// `Trace`: the whole file.
pub struct Trace {
    pub packet: Vec<TracePacket>,
}

// ---------------------------------------------------------------------------
// Mathematical views of the messages.
// ---------------------------------------------------------------------------

#[verifier::ext_equal]
pub struct DebugAnnotationV {
    pub name: Option<Seq<char>>,
    pub string_value: Option<Seq<char>>,
}

#[verifier::ext_equal]
pub struct TrackEventV {
    pub track_uuid: Option<u64>,
    pub name: Option<Seq<char>>,
    pub typ: Option<i32>,
    pub debug_annotations: Seq<DebugAnnotationV>,
}

#[verifier::ext_equal]
pub struct ThreadDescriptorV {
    pub pid: Option<i32>,
    pub tid: Option<i32>,
    pub thread_name: Option<Seq<char>>,
}

#[verifier::ext_equal]
pub struct TrackDescriptorV {
    pub uuid: Option<u64>,
    pub name: Option<Seq<char>>,
    pub process: Option<ProcessDescriptor>,
    pub thread: Option<ThreadDescriptorV>,
}

#[verifier::ext_equal]
pub enum PacketDataV {
    TrackEvent(TrackEventV),
    TrackDescriptor(TrackDescriptorV),
}

#[verifier::ext_equal]
pub struct TracePacketV {
    pub timestamp: Option<u64>,
    pub trusted_uid: Option<i32>,
    pub trusted_packet_sequence_id: Option<u32>,
    pub data: Option<PacketDataV>,
    pub trusted_pid: Option<i32>,
}

/// The characters of an optional string.
pub open spec fn opt_chars(s: Option<String>) -> Option<Seq<char>> {
    match s {
        Some(s) => Some(s@),
        None => None,
    }
}

impl View for DebugAnnotation {
    type V = DebugAnnotationV;

    open spec fn view(&self) -> DebugAnnotationV {
        DebugAnnotationV { name: opt_chars(self.name), string_value: opt_chars(self.string_value) }
    }
}

impl View for TrackEvent {
    type V = TrackEventV;

    open spec fn view(&self) -> TrackEventV {
        TrackEventV {
            track_uuid: self.track_uuid,
            name: opt_chars(self.name),
            typ: self.typ,
            debug_annotations: self.debug_annotations@.map_values(|d: DebugAnnotation| d@),
        }
    }
}

impl View for ThreadDescriptor {
    type V = ThreadDescriptorV;

    open spec fn view(&self) -> ThreadDescriptorV {
        ThreadDescriptorV { pid: self.pid, tid: self.tid, thread_name: opt_chars(self.thread_name) }
    }
}

impl View for TrackDescriptor {
    type V = TrackDescriptorV;

    open spec fn view(&self) -> TrackDescriptorV {
        TrackDescriptorV {
            uuid: self.uuid,
            name: opt_chars(self.name),
            process: self.process,
            thread: match self.thread {
                Some(t) => Some(t@),
                None => None,
            },
        }
    }
}

impl View for PacketData {
    type V = PacketDataV;

    open spec fn view(&self) -> PacketDataV {
        match self {
            PacketData::TrackEvent(e) => PacketDataV::TrackEvent(e@),
            PacketData::TrackDescriptor(d) => PacketDataV::TrackDescriptor(d@),
        }
    }
}

impl View for TracePacket {
    type V = TracePacketV;

    open spec fn view(&self) -> TracePacketV {
        TracePacketV {
            timestamp: self.timestamp,
            trusted_uid: self.trusted_uid,
            trusted_packet_sequence_id: self.trusted_packet_sequence_id,
            data: match self.data {
                Some(d) => Some(d@),
                None => None,
            },
            trusted_pid: self.trusted_pid,
        }
    }
}

impl View for Trace {
    type V = Seq<TracePacketV>;

    open spec fn view(&self) -> Seq<TracePacketV> {
        self.packet@.map_values(|p: TracePacket| p@)
    }
}

/// The number that `TrackEvent.Type` gives each event type.
pub open spec fn spec_event_type_number(t: TrackEventType) -> i32 {
    match t {
        TrackEventType::Unspecified => 0,
        TrackEventType::SliceBegin => 1,
        TrackEventType::SliceEnd => 2,
        TrackEventType::Instant => 3,
        TrackEventType::Counter => 4,
    }
}

impl TrackEventType {
    /// The number that the schema gives this event type.
    pub fn number(self) -> (n: i32)
        ensures
            n == spec_event_type_number(self),
    {
        match self {
            TrackEventType::Unspecified => 0,
            TrackEventType::SliceBegin => 1,
            TrackEventType::SliceEnd => 2,
            TrackEventType::Instant => 3,
            TrackEventType::Counter => 4,
        }
    }
}

impl Trace {
    /// A trace with no packet.
    pub fn new() -> (trace: Trace)
        ensures
            trace@ == Seq::<TracePacketV>::empty(),
    {
        Trace { packet: Vec::new() }
    }
}

} // verus!
