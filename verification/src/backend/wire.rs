//! The protobuf wire form of the trace messages.
//!
//! Each message is written field by field in the order that prost's message
//! derive uses: by field number, a `oneof` placed at the smallest number
//! among all its alternatives in the schema. An absent optional field writes
//! nothing. The field numbers are those of Perfetto's trace schema. Varints
//! and field keys are written by `prost`.

use vstd::prelude::*;
use vstd::utf8::encode_utf8;
use crate::backend::perfetto_protos::{
    DebugAnnotation, DebugAnnotationV, PacketData, PacketDataV, ProcessDescriptor,
    ThreadDescriptor, ThreadDescriptorV, Trace, TracePacket, TracePacketV, TrackDescriptor,
    TrackDescriptorV, TrackEvent, TrackEventV,
};

verus! {

/// The largest field number protobuf allows.
pub const MAX_FIELD_TAG: u32 = 536870911;

/// The wire types the trace messages use.
#[derive(Clone, Copy, Debug)]
pub enum WireKind {
    Varint,
    LengthDelimited,
}

/// The number of a wire type in a field key.
pub open spec fn spec_wire_number(wire: WireKind) -> u64 {
    match wire {
        WireKind::Varint => 0,
        WireKind::LengthDelimited => 2,
    }
}

/// The LEB128 varint of `value`: seven bits per byte, low bits first, the
/// high bit set on every byte but the last.
pub open spec fn spec_varint(value: u64) -> Seq<u8>
    decreases value,
{
    if value < 128 {
        seq![value as u8]
    } else {
        seq![(value % 128 + 128) as u8] + spec_varint(value / 128)
    }
}

/// Calls `prost::encoding::encode_varint`, which appends the LEB128 varint of
/// `value` to the buffer.
#[verifier::external_body]
fn put_varint(value: u64, buf: &mut Vec<u8>)
    ensures
        final(buf)@ == old(buf)@ + spec_varint(value),
{
    prost::encoding::encode_varint(value, buf)
}

/// Calls `prost::encoding::encode_key`, which appends the varint of
/// `(tag << 3) | wire_type`. The outside function asserts (in debug builds)
/// that the tag lies in `1..=MAX_FIELD_TAG`.
#[verifier::external_body]
fn put_key(tag: u32, wire: WireKind, buf: &mut Vec<u8>)
    requires
        1 <= tag <= MAX_FIELD_TAG,
    ensures
        final(buf)@ == old(buf)@ + spec_varint((tag * 8 + spec_wire_number(wire)) as u64),
{
    let wire_type = match wire {
        WireKind::Varint => prost::encoding::WireType::Varint,
        WireKind::LengthDelimited => prost::encoding::WireType::LengthDelimited,
    };
    prost::encoding::encode_key(tag, wire_type, buf)
}

// ---------------------------------------------------------------------------
// Fields.
// ---------------------------------------------------------------------------

/// The key of field `tag` with wire type `wire`.
pub open spec fn spec_key(tag: u32, wire: WireKind) -> Seq<u8> {
    spec_varint((tag * 8 + spec_wire_number(wire)) as u64)
}

/// A varint field.
pub open spec fn spec_varint_field(tag: u32, value: u64) -> Seq<u8> {
    spec_key(tag, WireKind::Varint) + spec_varint(value)
}

/// A length-delimited field.
pub open spec fn spec_len_field(tag: u32, payload: Seq<u8>) -> Seq<u8> {
    spec_key(tag, WireKind::LengthDelimited) + spec_varint(payload.len() as u64) + payload
}

/// An optional `uint64` field.
pub open spec fn spec_opt_u64_field(tag: u32, value: Option<u64>) -> Seq<u8> {
    match value {
        Some(v) => spec_varint_field(tag, v),
        None => Seq::empty(),
    }
}

/// An optional `int32` field: a negative value is written as its 64-bit
/// two's complement.
pub open spec fn spec_opt_i32_field(tag: u32, value: Option<i32>) -> Seq<u8> {
    match value {
        Some(v) => spec_varint_field(tag, v as u64),
        None => Seq::empty(),
    }
}

/// An optional `uint32` field.
pub open spec fn spec_opt_u32_field(tag: u32, value: Option<u32>) -> Seq<u8> {
    match value {
        Some(v) => spec_varint_field(tag, v as u64),
        None => Seq::empty(),
    }
}

/// An optional `string` field, written as UTF-8.
pub open spec fn spec_opt_string_field(tag: u32, value: Option<Seq<char>>) -> Seq<u8> {
    match value {
        Some(s) => spec_len_field(tag, encode_utf8(s)),
        None => Seq::empty(),
    }
}

/// Appends the bytes of `payload`.
fn put_bytes(payload: &[u8], buf: &mut Vec<u8>)
    ensures
        final(buf)@ == old(buf)@ + payload@,
{
    let n = payload.len();
    let mut i: usize = 0;
    while i < n
        invariant
            n == payload@.len(),
            i <= n,
            buf@ == old(buf)@ + payload@.take(i as int),
        decreases n - i,
    {
        buf.push(payload[i]);
        i = i + 1;
        proof {
            assert(buf@ =~= old(buf)@ + payload@.take(i as int));
        }
    }
    proof {
        assert(payload@.take(n as int) =~= payload@);
    }
}

/// Appends a varint field.
fn put_varint_field(tag: u32, value: u64, buf: &mut Vec<u8>)
    requires
        1 <= tag <= MAX_FIELD_TAG,
    ensures
        final(buf)@ == old(buf)@ + spec_varint_field(tag, value),
{
    put_key(tag, WireKind::Varint, buf);
    put_varint(value, buf);
    proof {
        assert(buf@ =~= old(buf)@ + spec_varint_field(tag, value));
    }
}

/// Appends a length-delimited field.
fn put_len_field(tag: u32, payload: &[u8], buf: &mut Vec<u8>)
    requires
        1 <= tag <= MAX_FIELD_TAG,
    ensures
        final(buf)@ == old(buf)@ + spec_len_field(tag, payload@),
{
    put_key(tag, WireKind::LengthDelimited, buf);
    put_varint(payload.len() as u64, buf);
    put_bytes(payload, buf);
    proof {
        assert(buf@ =~= old(buf)@ + spec_len_field(tag, payload@));
    }
}

/// Appends an optional `uint64` field.
fn put_opt_u64_field(tag: u32, value: Option<u64>, buf: &mut Vec<u8>)
    requires
        1 <= tag <= MAX_FIELD_TAG,
    ensures
        final(buf)@ == old(buf)@ + spec_opt_u64_field(tag, value),
{
    match value {
        Some(v) => put_varint_field(tag, v, buf),
        None => {
            assert(buf@ =~= old(buf)@ + spec_opt_u64_field(tag, value));
        },
    }
}

/// Appends an optional `int32` field.
fn put_opt_i32_field(tag: u32, value: Option<i32>, buf: &mut Vec<u8>)
    requires
        1 <= tag <= MAX_FIELD_TAG,
    ensures
        final(buf)@ == old(buf)@ + spec_opt_i32_field(tag, value),
{
    match value {
        Some(v) => put_varint_field(tag, v as u64, buf),
        None => {
            assert(buf@ =~= old(buf)@ + spec_opt_i32_field(tag, value));
        },
    }
}

/// Appends an optional `uint32` field.
fn put_opt_u32_field(tag: u32, value: Option<u32>, buf: &mut Vec<u8>)
    requires
        1 <= tag <= MAX_FIELD_TAG,
    ensures
        final(buf)@ == old(buf)@ + spec_opt_u32_field(tag, value),
{
    match value {
        Some(v) => put_varint_field(tag, v as u64, buf),
        None => {
            assert(buf@ =~= old(buf)@ + spec_opt_u32_field(tag, value));
        },
    }
}

/// Appends an optional `string` field.
fn put_opt_string_field(tag: u32, value: &Option<String>, buf: &mut Vec<u8>)
    requires
        1 <= tag <= MAX_FIELD_TAG,
    ensures
        final(buf)@ == old(buf)@ + spec_opt_string_field(tag, crate::backend::perfetto_protos::opt_chars(*value)),
{
    match value {
        Some(s) => {
            let bytes = s.as_str().as_bytes();
            put_len_field(tag, bytes, buf);
        },
        None => {
            assert(buf@ =~= old(buf)@ + spec_opt_string_field(
                tag,
                crate::backend::perfetto_protos::opt_chars(*value),
            ));
        },
    }
}

// ---------------------------------------------------------------------------
// Messages.
// ---------------------------------------------------------------------------

/// `DebugAnnotation`: `name` = 10 (in the `name_field` oneof, which starts
/// at 1), then `string_value` = 6 (in the `value` oneof, which starts at 2).
pub open spec fn spec_encode_debug_annotation(d: DebugAnnotationV) -> Seq<u8> {
    spec_opt_string_field(10, d.name) + spec_opt_string_field(6, d.string_value)
}

/// The repeated `debug_annotations` field (4) of a `TrackEvent`.
pub open spec fn spec_encode_annotations(annotations: Seq<DebugAnnotationV>) -> Seq<u8>
    decreases annotations.len(),
{
    if annotations.len() == 0 {
        Seq::empty()
    } else {
        spec_encode_annotations(annotations.drop_last()) + spec_len_field(
            4,
            spec_encode_debug_annotation(annotations.last()),
        )
    }
}

/// `TrackEvent`: `debug_annotations` = 4, `type` = 9, `name` = 23 (in the
/// `name_field` oneof, which starts at 10), `track_uuid` = 11.
pub open spec fn spec_encode_track_event(e: TrackEventV) -> Seq<u8> {
    spec_encode_annotations(e.debug_annotations) + spec_opt_i32_field(9, e.typ)
        + spec_opt_string_field(23, e.name) + spec_opt_u64_field(11, e.track_uuid)
}

/// `ProcessDescriptor`: `pid` = 1.
pub open spec fn spec_encode_process_descriptor(p: ProcessDescriptor) -> Seq<u8> {
    spec_opt_i32_field(1, p.pid)
}

/// `ThreadDescriptor`: `pid` = 1, `tid` = 2, `thread_name` = 5.
pub open spec fn spec_encode_thread_descriptor(t: ThreadDescriptorV) -> Seq<u8> {
    spec_opt_i32_field(1, t.pid) + spec_opt_i32_field(2, t.tid) + spec_opt_string_field(
        5,
        t.thread_name,
    )
}

/// `TrackDescriptor`: `uuid` = 1, `name` = 2, `process` = 3, `thread` = 4.
pub open spec fn spec_encode_track_descriptor(d: TrackDescriptorV) -> Seq<u8> {
    spec_opt_u64_field(1, d.uuid) + spec_opt_string_field(2, d.name) + match d.process {
        Some(p) => spec_len_field(3, spec_encode_process_descriptor(p)),
        None => Seq::empty(),
    } + match d.thread {
        Some(t) => spec_len_field(4, spec_encode_thread_descriptor(t)),
        None => Seq::empty(),
    }
}

/// `TracePacket`: `track_event` = 11 or `track_descriptor` = 60 (in the
/// `data` oneof, which starts at 2), `trusted_uid` = 3, `timestamp` = 8,
/// `trusted_packet_sequence_id` = 10, `trusted_pid` = 79.
pub open spec fn spec_encode_packet(p: TracePacketV) -> Seq<u8> {
    spec_encode_packet_data(p.data) + spec_opt_i32_field(3, p.trusted_uid) + spec_opt_u64_field(
        8,
        p.timestamp,
    ) + spec_opt_u32_field(10, p.trusted_packet_sequence_id) + spec_opt_i32_field(79, p.trusted_pid)
}

/// The `data` oneof of a `TracePacket`.
pub open spec fn spec_encode_packet_data(data: Option<PacketDataV>) -> Seq<u8> {
    match data {
        Some(PacketDataV::TrackEvent(e)) => spec_len_field(11, spec_encode_track_event(e)),
        Some(PacketDataV::TrackDescriptor(d)) => spec_len_field(
            60,
            spec_encode_track_descriptor(d),
        ),
        None => Seq::empty(),
    }
}

/// `Trace`: the repeated `packet` field (1).
pub open spec fn spec_encode_trace(packets: Seq<TracePacketV>) -> Seq<u8>
    decreases packets.len(),
{
    if packets.len() == 0 {
        Seq::empty()
    } else {
        spec_encode_trace(packets.drop_last()) + spec_len_field(1, spec_encode_packet(packets.last()))
    }
}

/// Writing traces one after another gives the bytes of writing their packets
/// as one trace: the wire form of `a + b` is that of `a` followed by that of
/// `b`. (This is why each batch can be appended to the trace file on its
/// own.)
pub proof fn lemma_encode_trace_concat(a: Seq<TracePacketV>, b: Seq<TracePacketV>)
    ensures
        spec_encode_trace(a + b) == spec_encode_trace(a) + spec_encode_trace(b),
    decreases b.len(),
{
    if b.len() == 0 {
        assert(a + b =~= a);
        assert(spec_encode_trace(a) + spec_encode_trace(b) =~= spec_encode_trace(a));
    } else {
        lemma_encode_trace_concat(a, b.drop_last());
        assert((a + b).drop_last() =~= a + b.drop_last());
        assert((a + b).last() == b.last());
        let last = spec_len_field(1, spec_encode_packet(b.last()));
        assert(spec_encode_trace(a) + spec_encode_trace(b.drop_last()) + last =~= spec_encode_trace(a)
            + (spec_encode_trace(b.drop_last()) + last));
    }
}

// ---------------------------------------------------------------------------
// Reading the bytes back.
// ---------------------------------------------------------------------------

/// The value of the varint at the front of `bytes` and how many bytes it
/// takes, if `bytes` start with a whole varint.
pub open spec fn spec_read_varint(bytes: Seq<u8>) -> Option<(int, nat)>
    decreases bytes.len(),
{
    if bytes.len() == 0 {
        None
    } else if bytes[0] < 128 {
        Some((bytes[0] as int, 1))
    } else {
        match spec_read_varint(bytes.drop_first()) {
            Some((value, n)) => Some((bytes[0] - 128 + 128 * value, n + 1)),
            None => None,
        }
    }
}

/// The length-delimited records that make up `bytes`, front to back: the
/// field number and the payload of each; `None` when `bytes` are not such
/// records.
pub open spec fn spec_read_records(bytes: Seq<u8>) -> Option<Seq<(int, Seq<u8>)>>
    decreases bytes.len(),
{
    if bytes.len() == 0 {
        Some(Seq::empty())
    } else {
        match spec_read_varint(bytes) {
            None => None,
            Some((key, n)) => match spec_read_varint(bytes.skip(n as int)) {
                None => None,
                Some((len, m)) => {
                    let start: int = (n + m) as int;
                    let end: int = start + len;
                    if key % 8 != 2 || n < 1 || len < 0 || end > bytes.len() {
                        None
                    } else {
                        match spec_read_records(bytes.skip(end)) {
                            Some(rest) => Some(seq![(key / 8, bytes.subrange(start, end))] + rest),
                            None => None,
                        }
                    }
                },
            },
        }
    }
}

/// A varint reads back as the value it was written from, whatever follows.
pub proof fn lemma_varint_reads_back(value: u64, rest: Seq<u8>)
    ensures
        spec_varint(value).len() >= 1,
        spec_read_varint(spec_varint(value) + rest) == Some((value as int, spec_varint(value).len())),
    decreases value,
{
    let bytes = spec_varint(value) + rest;
    if value < 128 {
        assert(bytes[0] == value as u8);
    } else {
        let low = (value % 128 + 128) as u8;
        let high = value / 128;
        lemma_varint_reads_back(high, rest);
        assert(bytes[0] == low);
        assert(low as int == value % 128 + 128);
        assert(bytes.drop_first() =~= spec_varint(high) + rest);
        assert(value as int == value % 128 + 128 * high);
    }
}

/// A length-delimited field reads back as its field number and payload,
/// followed by the records of what comes after it.
pub proof fn lemma_len_field_reads_back(tag: u32, payload: Seq<u8>, rest: Seq<u8>)
    requires
        1 <= tag <= MAX_FIELD_TAG,
        payload.len() <= u64::MAX,
    ensures
        spec_read_records(spec_len_field(tag, payload) + rest) == match spec_read_records(rest) {
            Some(r) => Some(seq![(tag as int, payload)] + r),
            None => None,
        },
{
    let key_value = (tag * 8 + spec_wire_number(WireKind::LengthDelimited)) as u64;
    let key = spec_varint(key_value);
    let len_bytes = spec_varint(payload.len() as u64);
    let after_key = len_bytes + (payload + rest);
    let bytes = spec_len_field(tag, payload) + rest;
    assert(bytes =~= key + after_key);
    lemma_varint_reads_back(key_value, after_key);
    lemma_varint_reads_back(payload.len() as u64, payload + rest);
    assert(bytes.skip(key.len() as int) =~= after_key);
    let start = key.len() + len_bytes.len();
    let end = start + payload.len();
    assert(key_value as int == tag * 8 + 2);
    assert(key_value % 8 == 2);
    assert(key_value / 8 == tag);
    assert(bytes.subrange(start as int, end as int) =~= payload);
    assert(bytes.skip(end as int) =~= rest);
}

/// The bytes of a trace are the record of its first packet followed by the
/// bytes of the other packets.
proof fn lemma_encode_trace_front(packets: Seq<TracePacketV>)
    requires
        packets.len() > 0,
    ensures
        spec_encode_trace(packets) == spec_len_field(1, spec_encode_packet(packets[0]))
            + spec_encode_trace(packets.drop_first()),
{
    let first = packets[0];
    let others = packets.drop_first();
    assert(packets =~= seq![first] + others);
    lemma_encode_trace_concat(seq![first], others);
    let single = seq![first];
    assert(single.len() == 1);
    assert(single.last() == first);
    assert(single.drop_last() =~= Seq::<TracePacketV>::empty());
    assert(spec_encode_trace(single.drop_last()) == Seq::<u8>::empty());
    assert(spec_encode_trace(single) =~= spec_len_field(1, spec_encode_packet(first)));
}

/// The bytes written for a trace read back as one field-1 record per packet,
/// packet after packet, each holding that packet's encoding: every packet of
/// the trace is in the file, whatever it carries.
#[verifier::rlimit(30)]
pub proof fn lemma_trace_reads_back_as_packets(packets: Seq<TracePacketV>)
    requires
        forall|i: int| 0 <= i < packets.len() ==> (#[trigger] spec_encode_packet(packets[i])).len()
            <= u64::MAX,
    ensures
        spec_read_records(spec_encode_trace(packets)) == Some(
            packets.map_values(|p: TracePacketV| (1int, spec_encode_packet(p))),
        ),
    decreases packets.len(),
{
    let records = packets.map_values(|p: TracePacketV| (1int, spec_encode_packet(p)));
    if packets.len() == 0 {
        assert(records =~= Seq::empty());
    } else {
        let first = packets[0];
        let others = packets.drop_first();
        let payload = spec_encode_packet(first);
        let tail = spec_encode_trace(others);
        assert forall|i: int| 0 <= i < others.len() implies (#[trigger] spec_encode_packet(
            others[i],
        )).len() <= u64::MAX by {
            assert(others[i] == packets[i + 1]);
        }
        lemma_trace_reads_back_as_packets(others);
        let other_records = others.map_values(|p: TracePacketV| (1int, spec_encode_packet(p)));
        assert(spec_read_records(tail) == Some(other_records));
        lemma_encode_trace_front(packets);
        assert(payload.len() <= u64::MAX);
        lemma_len_field_reads_back(1, payload, tail);
        assert(records =~= seq![(1int, payload)] + other_records);
    }
}

/// A field value as the wire holds it.
pub enum WireValue {
    Varint(int),
    Bytes(Seq<u8>),
}

/// The fields that make up `bytes`, front to back: the field number and the
/// value of each; `None` when `bytes` are not such fields.
pub open spec fn spec_read_fields(bytes: Seq<u8>) -> Option<Seq<(int, WireValue)>>
    decreases bytes.len(),
{
    if bytes.len() == 0 {
        Some(Seq::empty())
    } else {
        match spec_read_varint(bytes) {
            None => None,
            Some((key, n)) => match spec_read_varint(bytes.skip(n as int)) {
                None => None,
                Some((value, m)) => {
                    let after: int = (n + m) as int;
                    if n < 1 || m < 1 || after > bytes.len() {
                        None
                    } else if key % 8 == 0 {
                        match spec_read_fields(bytes.skip(after)) {
                            Some(rest) => Some(seq![(key / 8, WireValue::Varint(value))] + rest),
                            None => None,
                        }
                    } else if key % 8 == 2 && value >= 0 && after + value <= bytes.len() {
                        match spec_read_fields(bytes.skip(after + value)) {
                            Some(rest) => Some(
                                seq![(key / 8, WireValue::Bytes(bytes.subrange(after, after + value)))]
                                    + rest,
                            ),
                            None => None,
                        }
                    } else {
                        None
                    }
                },
            },
        }
    }
}

/// What reading `rest` gives, with `fields` in front.
pub open spec fn spec_after(fields: Seq<(int, WireValue)>, rest: Seq<u8>) -> Option<
    Seq<(int, WireValue)>,
> {
    match spec_read_fields(rest) {
        Some(r) => Some(fields + r),
        None => None,
    }
}

/// A varint field reads back as its field number and value.
proof fn lemma_varint_field_reads_back(tag: u32, value: u64, rest: Seq<u8>)
    requires
        1 <= tag <= MAX_FIELD_TAG,
    ensures
        spec_read_fields(spec_varint_field(tag, value) + rest) == spec_after(
            seq![(tag as int, WireValue::Varint(value as int))],
            rest,
        ),
{
    let key_value = (tag * 8 + spec_wire_number(WireKind::Varint)) as u64;
    let key = spec_varint(key_value);
    let val = spec_varint(value);
    let bytes = spec_varint_field(tag, value) + rest;
    assert(bytes =~= key + (val + rest));
    lemma_varint_reads_back(key_value, val + rest);
    lemma_varint_reads_back(value, rest);
    assert(bytes.skip(key.len() as int) =~= val + rest);
    assert(key_value as int == tag * 8);
    assert(key_value % 8 == 0);
    assert(key_value / 8 == tag);
    assert(bytes.skip((key.len() + val.len()) as int) =~= rest);
}

/// A length-delimited field reads back as its field number and payload.
proof fn lemma_bytes_field_reads_back(tag: u32, payload: Seq<u8>, rest: Seq<u8>)
    requires
        1 <= tag <= MAX_FIELD_TAG,
        payload.len() <= u64::MAX,
    ensures
        spec_read_fields(spec_len_field(tag, payload) + rest) == spec_after(
            seq![(tag as int, WireValue::Bytes(payload))],
            rest,
        ),
{
    let key_value = (tag * 8 + spec_wire_number(WireKind::LengthDelimited)) as u64;
    let key = spec_varint(key_value);
    let len_bytes = spec_varint(payload.len() as u64);
    let bytes = spec_len_field(tag, payload) + rest;
    assert(bytes =~= key + (len_bytes + (payload + rest)));
    lemma_varint_reads_back(key_value, len_bytes + (payload + rest));
    lemma_varint_reads_back(payload.len() as u64, payload + rest);
    assert(bytes.skip(key.len() as int) =~= len_bytes + (payload + rest));
    assert(key_value as int == tag * 8 + 2);
    assert(key_value % 8 == 2);
    assert(key_value / 8 == tag);
    let after: int = (key.len() + len_bytes.len()) as int;
    assert(bytes.subrange(after, after + payload.len()) =~= payload);
    assert(bytes.skip(after + payload.len()) =~= rest);
}

/// An optional varint field reads back as its value when present, and as
/// nothing when absent.
proof fn lemma_opt_varint_reads_back(tag: u32, value: Option<u64>, field: Seq<u8>, rest: Seq<u8>)
    requires
        1 <= tag <= MAX_FIELD_TAG,
        field == match value {
            Some(v) => spec_varint_field(tag, v),
            None => Seq::<u8>::empty(),
        },
    ensures
        spec_read_fields(field + rest) == spec_after(
            match value {
                Some(v) => seq![(tag as int, WireValue::Varint(v as int))],
                None => Seq::<(int, WireValue)>::empty(),
            },
            rest,
        ),
{
    match value {
        Some(v) => lemma_varint_field_reads_back(tag, v, rest),
        None => {
            assert(field + rest =~= rest);
            match spec_read_fields(rest) {
                Some(r) => assert(Seq::<(int, WireValue)>::empty() + r =~= r),
                None => {},
            }
        },
    }
}

/// The fields of a packet's payload, as they read back.
pub open spec fn spec_packet_data_fields(data: Option<PacketDataV>) -> Seq<(int, WireValue)> {
    match data {
        Some(PacketDataV::TrackEvent(e)) => seq![
            (11int, WireValue::Bytes(spec_encode_track_event(e))),
        ],
        Some(PacketDataV::TrackDescriptor(d)) => seq![
            (60int, WireValue::Bytes(spec_encode_track_descriptor(d))),
        ],
        None => Seq::empty(),
    }
}

/// An optional varint field, as it reads back.
pub open spec fn spec_opt_varint_read(tag: int, value: Option<u64>) -> Seq<(int, WireValue)> {
    match value {
        Some(v) => seq![(tag, WireValue::Varint(v as int))],
        None => Seq::empty(),
    }
}

/// An optional `int32` as the varint the wire holds.
pub open spec fn spec_i32_as_varint(value: Option<i32>) -> Option<u64> {
    match value {
        Some(v) => Some(v as u64),
        None => None,
    }
}

/// An optional `uint32` as the varint the wire holds.
pub open spec fn spec_u32_as_varint(value: Option<u32>) -> Option<u64> {
    match value {
        Some(v) => Some(v as u64),
        None => None,
    }
}

/// The payload of a packet reads back as one field, under 11 for a track
/// event and under 60 for a track descriptor.
proof fn lemma_packet_data_reads_back(data: Option<PacketDataV>, rest: Seq<u8>)
    requires
        spec_encode_packet_data(data).len() <= u64::MAX,
    ensures
        spec_read_fields(spec_encode_packet_data(data) + rest) == spec_after(
            spec_packet_data_fields(data),
            rest,
        ),
{
    match data {
        Some(PacketDataV::TrackEvent(e)) => {
            let payload = spec_encode_track_event(e);
            assert(payload.len() <= spec_len_field(11, payload).len());
            lemma_bytes_field_reads_back(11, payload, rest);
        },
        Some(PacketDataV::TrackDescriptor(d)) => {
            let payload = spec_encode_track_descriptor(d);
            assert(payload.len() <= spec_len_field(60, payload).len());
            lemma_bytes_field_reads_back(60, payload, rest);
        },
        None => {
            assert(spec_encode_packet_data(data) + rest =~= rest);
            match spec_read_fields(rest) {
                Some(r) => assert(Seq::<(int, WireValue)>::empty() + r =~= r),
                None => {},
            }
        },
    }
}

/// The fields after a packet's payload read back as `trusted_uid` (3),
/// `timestamp` (8), `trusted_packet_sequence_id` (10) and `trusted_pid` (79),
/// each present exactly when the packet has it.
proof fn lemma_packet_tail_reads_back(
    uid: Option<i32>,
    timestamp: Option<u64>,
    sequence_id: Option<u32>,
    pid: Option<i32>,
)
    ensures
        spec_read_fields(
            spec_opt_i32_field(3, uid) + spec_opt_u64_field(8, timestamp) + spec_opt_u32_field(
                10,
                sequence_id,
            ) + spec_opt_i32_field(79, pid),
        ) == Some(
            spec_opt_varint_read(3, spec_i32_as_varint(uid)) + spec_opt_varint_read(8, timestamp)
                + spec_opt_varint_read(10, spec_u32_as_varint(sequence_id)) + spec_opt_varint_read(
                79,
                spec_i32_as_varint(pid),
            ),
        ),
{
    let f3 = spec_opt_i32_field(3, uid);
    let f8 = spec_opt_u64_field(8, timestamp);
    let f10 = spec_opt_u32_field(10, sequence_id);
    let f79 = spec_opt_i32_field(79, pid);
    let v3 = spec_opt_varint_read(3, spec_i32_as_varint(uid));
    let v8 = spec_opt_varint_read(8, timestamp);
    let v10 = spec_opt_varint_read(10, spec_u32_as_varint(sequence_id));
    let v79 = spec_opt_varint_read(79, spec_i32_as_varint(pid));
    assert(spec_read_fields(Seq::<u8>::empty()) == Some(Seq::<(int, WireValue)>::empty()));
    lemma_opt_varint_reads_back(79, spec_i32_as_varint(pid), f79, Seq::empty());
    assert(f79 + Seq::<u8>::empty() =~= f79);
    assert(v79 + Seq::<(int, WireValue)>::empty() =~= v79);
    assert(spec_read_fields(f79) == Some(v79));
    lemma_opt_varint_reads_back(10, spec_u32_as_varint(sequence_id), f10, f79);
    assert(spec_read_fields(f10 + f79) == Some(v10 + v79));
    lemma_opt_varint_reads_back(8, timestamp, f8, f10 + f79);
    assert(spec_read_fields(f8 + (f10 + f79)) == Some(v8 + (v10 + v79)));
    lemma_opt_varint_reads_back(3, spec_i32_as_varint(uid), f3, f8 + (f10 + f79));
    assert(spec_read_fields(f3 + (f8 + (f10 + f79))) == Some(v3 + (v8 + (v10 + v79))));
    assert(f3 + f8 + f10 + f79 =~= f3 + (f8 + (f10 + f79)));
    assert(v3 + v8 + v10 + v79 =~= v3 + (v8 + (v10 + v79)));
}

/// A `TracePacket` reads back, field by field, as its payload (the track
/// event under 11 or the track descriptor under 60), then `trusted_uid`
/// under 3, `timestamp` under 8, `trusted_packet_sequence_id` under 10 and
/// `trusted_pid` under 79, each present exactly when the packet has it. An
/// `int32` reads back as its 64-bit two's complement.
pub proof fn lemma_packet_reads_back(p: TracePacketV)
    requires
        spec_encode_packet_data(p.data).len() <= u64::MAX,
    ensures
        spec_read_fields(spec_encode_packet(p)) == Some(
            spec_packet_data_fields(p.data) + spec_opt_varint_read(
                3,
                spec_i32_as_varint(p.trusted_uid),
            ) + spec_opt_varint_read(8, p.timestamp) + spec_opt_varint_read(
                10,
                spec_u32_as_varint(p.trusted_packet_sequence_id),
            ) + spec_opt_varint_read(79, spec_i32_as_varint(p.trusted_pid)),
        ),
{
    let d = spec_encode_packet_data(p.data);
    let tail = spec_opt_i32_field(3, p.trusted_uid) + spec_opt_u64_field(8, p.timestamp)
        + spec_opt_u32_field(10, p.trusted_packet_sequence_id) + spec_opt_i32_field(79, p.trusted_pid);
    let tail_fields = spec_opt_varint_read(3, spec_i32_as_varint(p.trusted_uid))
        + spec_opt_varint_read(8, p.timestamp) + spec_opt_varint_read(
        10,
        spec_u32_as_varint(p.trusted_packet_sequence_id),
    ) + spec_opt_varint_read(79, spec_i32_as_varint(p.trusted_pid));
    lemma_packet_tail_reads_back(p.trusted_uid, p.timestamp, p.trusted_packet_sequence_id, p.trusted_pid);
    lemma_packet_data_reads_back(p.data, tail);
    assert(spec_encode_packet(p) =~= d + tail);
    let vd = spec_packet_data_fields(p.data);
    assert(vd + tail_fields =~= vd + spec_opt_varint_read(3, spec_i32_as_varint(p.trusted_uid))
        + spec_opt_varint_read(8, p.timestamp) + spec_opt_varint_read(
        10,
        spec_u32_as_varint(p.trusted_packet_sequence_id),
    ) + spec_opt_varint_read(79, spec_i32_as_varint(p.trusted_pid)));
}

/// The wire form of a `DebugAnnotation`.
pub fn encode_debug_annotation(d: &DebugAnnotation) -> (bytes: Vec<u8>)
    ensures
        bytes@ == spec_encode_debug_annotation(d@),
{
    let mut buf: Vec<u8> = Vec::new();
    put_opt_string_field(10, &d.name, &mut buf);
    put_opt_string_field(6, &d.string_value, &mut buf);
    proof {
        assert(buf@ =~= spec_encode_debug_annotation(d@));
    }
    buf
}

/// The wire form of a `TrackEvent`.
pub fn encode_track_event(e: &TrackEvent) -> (bytes: Vec<u8>)
    ensures
        bytes@ == spec_encode_track_event(e@),
{
    let mut buf: Vec<u8> = Vec::new();
    let ghost annotations = e@.debug_annotations;
    let n = e.debug_annotations.len();
    let mut i: usize = 0;
    while i < n
        invariant
            n == e.debug_annotations@.len(),
            annotations == e.debug_annotations@.map_values(|d: DebugAnnotation| d@),
            i <= n,
            buf@ == spec_encode_annotations(annotations.take(i as int)),
        decreases n - i,
    {
        let inner = encode_debug_annotation(&e.debug_annotations[i]);
        put_len_field(4, inner.as_slice(), &mut buf);
        proof {
            assert(annotations.take(i + 1).drop_last() =~= annotations.take(i as int));
            assert(annotations.take(i + 1).last() == annotations[i as int]);
        }
        i = i + 1;
    }
    proof {
        assert(annotations.take(n as int) =~= annotations);
    }
    put_opt_i32_field(9, e.typ, &mut buf);
    put_opt_string_field(23, &e.name, &mut buf);
    put_opt_u64_field(11, e.track_uuid, &mut buf);
    proof {
        assert(buf@ =~= spec_encode_track_event(e@));
    }
    buf
}

/// The wire form of a `ProcessDescriptor`.
pub fn encode_process_descriptor(p: &ProcessDescriptor) -> (bytes: Vec<u8>)
    ensures
        bytes@ == spec_encode_process_descriptor(*p),
{
    let mut buf: Vec<u8> = Vec::new();
    put_opt_i32_field(1, p.pid, &mut buf);
    proof {
        assert(buf@ =~= spec_encode_process_descriptor(*p));
    }
    buf
}

/// The wire form of a `ThreadDescriptor`.
pub fn encode_thread_descriptor(t: &ThreadDescriptor) -> (bytes: Vec<u8>)
    ensures
        bytes@ == spec_encode_thread_descriptor(t@),
{
    let mut buf: Vec<u8> = Vec::new();
    put_opt_i32_field(1, t.pid, &mut buf);
    put_opt_i32_field(2, t.tid, &mut buf);
    put_opt_string_field(5, &t.thread_name, &mut buf);
    proof {
        assert(buf@ =~= spec_encode_thread_descriptor(t@));
    }
    buf
}

/// The wire form of a `TrackDescriptor`.
pub fn encode_track_descriptor(d: &TrackDescriptor) -> (bytes: Vec<u8>)
    ensures
        bytes@ == spec_encode_track_descriptor(d@),
{
    let mut buf: Vec<u8> = Vec::new();
    put_opt_u64_field(1, d.uuid, &mut buf);
    put_opt_string_field(2, &d.name, &mut buf);
    match &d.process {
        Some(p) => {
            let inner = encode_process_descriptor(p);
            put_len_field(3, inner.as_slice(), &mut buf);
        },
        None => {},
    }
    match &d.thread {
        Some(t) => {
            let inner = encode_thread_descriptor(t);
            put_len_field(4, inner.as_slice(), &mut buf);
        },
        None => {},
    }
    proof {
        assert(buf@ =~= spec_encode_track_descriptor(d@));
    }
    buf
}

/// The wire form of a `TracePacket`.
pub fn encode_packet(p: &TracePacket) -> (bytes: Vec<u8>)
    ensures
        bytes@ == spec_encode_packet(p@),
{
    let mut buf: Vec<u8> = Vec::new();
    match &p.data {
        Some(PacketData::TrackEvent(e)) => {
            let inner = encode_track_event(e);
            put_len_field(11, inner.as_slice(), &mut buf);
        },
        Some(PacketData::TrackDescriptor(d)) => {
            let inner = encode_track_descriptor(d);
            put_len_field(60, inner.as_slice(), &mut buf);
        },
        None => {},
    }
    put_opt_i32_field(3, p.trusted_uid, &mut buf);
    put_opt_u64_field(8, p.timestamp, &mut buf);
    put_opt_u32_field(10, p.trusted_packet_sequence_id, &mut buf);
    put_opt_i32_field(79, p.trusted_pid, &mut buf);
    proof {
        assert(buf@ =~= spec_encode_packet(p@));
    }
    buf
}

/// The wire form of a whole `Trace`, as it is written to the trace file.
pub fn encode_trace(trace: &Trace) -> (bytes: Vec<u8>)
    ensures
        bytes@ == spec_encode_trace(trace@),
        spec_read_records(bytes@) == Some(
            trace@.map_values(|p: TracePacketV| (1int, spec_encode_packet(p))),
        ),
{
    let mut buf: Vec<u8> = Vec::new();
    let ghost packets = trace@;
    let n = trace.packet.len();
    let mut i: usize = 0;
    while i < n
        invariant
            n == trace.packet@.len(),
            packets == trace.packet@.map_values(|p: TracePacket| p@),
            i <= n,
            buf@ == spec_encode_trace(packets.take(i as int)),
            forall|k: int| 0 <= k < i ==> (#[trigger] spec_encode_packet(packets[k])).len() <= u64::MAX,
        decreases n - i,
    {
        let inner = encode_packet(&trace.packet[i]);
        put_len_field(1, inner.as_slice(), &mut buf);
        proof {
            assert(packets.take(i + 1).drop_last() =~= packets.take(i as int));
            assert(packets.take(i + 1).last() == packets[i as int]);
            assert(inner@.len() == inner.len());
            assert(inner.len() <= u64::MAX);
        }
        i = i + 1;
    }
    proof {
        assert(packets.take(n as int) =~= packets);
        lemma_trace_reads_back_as_packets(packets);
    }
    buf
}

} // verus!
