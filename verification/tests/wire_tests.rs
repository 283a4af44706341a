use rt_trace::backend::perfetto::{append_process_descriptor, build_trace};
use rt_trace::backend::perfetto_protos::{
    DebugAnnotation, ProcessDescriptor, ThreadDescriptor, Trace, TracePacket,
    TrackDescriptor, TrackEvent,
};
use rt_trace::span::{RawSpan, RunTask, Type};
use rt_trace::backend::wire::{
    encode_debug_annotation, encode_packet, encode_process_descriptor, encode_thread_descriptor,
    encode_trace, encode_track_descriptor, encode_track_event, MAX_FIELD_TAG,
};

#[test]
fn max_field_tag_is_protobufs() {
    assert_eq!(MAX_FIELD_TAG, (1u32 << 29) - 1);
}

#[test]
fn process_descriptor_trace_bytes() {
    let mut trace = Trace::new();
    append_process_descriptor(&mut trace, 7, 5);
    let bytes = encode_trace(&trace);
    assert_eq!(
        bytes,
        vec![0x0A, 0x0B, 0xE2, 0x03, 0x06, 0x08, 0x05, 0x1A, 0x02, 0x08, 0x07, 0x18, 0x2A]
    );
}

#[test]
fn slice_end_packet_bytes() {
    let spans = vec![RawSpan::new(
        Type::RunTask(RunTask {}),
        9,
        fastant::Instant::ZERO,
        fastant::Instant::ZERO,
    )];
    let trace = build_trace(7, &spans, &[(1, 300)]);
    let end = encode_packet(&trace.packet[1]);
    let mut expected: Vec<u8> = vec![0x5A, 0x14, 0x22, 0x0E, 0x52, 0x04];
    expected.extend_from_slice(b"key1");
    expected.extend_from_slice(&[0x32, 0x06]);
    expected.extend_from_slice(b"value1");
    expected.extend_from_slice(&[0x48, 0x02, 0x58, 0x09]);
    expected.extend_from_slice(&[0x40, 0xAC, 0x02, 0x50, 0x2A, 0xF8, 0x04, 0x07]);
    assert_eq!(end, expected);
}

#[test]
fn negative_int32_takes_ten_bytes() {
    let bytes = encode_process_descriptor(&ProcessDescriptor { pid: Some(-1) });
    assert_eq!(bytes, vec![0x08, 0xFF, 0xFF, 0xFF, 0xFF, 0xFF, 0xFF, 0xFF, 0xFF, 0xFF, 0x01]);
    assert!(encode_process_descriptor(&ProcessDescriptor { pid: None }).is_empty());
}

#[test]
fn strings_are_written_as_utf8() {
    let d = DebugAnnotation { name: Some("é".to_string()), string_value: None };
    assert_eq!(encode_debug_annotation(&d), vec![0x52, 0x02, 0xC3, 0xA9]);
    let t = ThreadDescriptor { pid: Some(1), tid: Some(2), thread_name: Some("ab".to_string()) };
    assert_eq!(encode_thread_descriptor(&t), vec![0x08, 0x01, 0x10, 0x02, 0x2A, 0x02, b'a', b'b']);
}

#[test]
fn track_event_fields_in_field_order() {
    let e = TrackEvent {
        track_uuid: Some(1),
        name: Some("n".to_string()),
        typ: Some(1),
        debug_annotations: vec![],
    };
    // type (9), name (23 -> key 0xBA 0x01), track_uuid (11)
    assert_eq!(encode_track_event(&e), vec![0x48, 0x01, 0xBA, 0x01, 0x01, b'n', 0x58, 0x01]);
    let d = TrackDescriptor {
        uuid: Some(2),
        name: Some("t".to_string()),
        process: None,
        thread: Some(ThreadDescriptor { pid: None, tid: Some(3), thread_name: None }),
    };
    assert_eq!(encode_track_descriptor(&d), vec![0x08, 0x02, 0x12, 0x01, b't', 0x22, 0x02, 0x10, 0x03]);
}

#[test]
fn empty_packet_and_trace() {
    let p = TracePacket {
        timestamp: None,
        trusted_uid: None,
        trusted_packet_sequence_id: None,
        data: None,
        trusted_pid: None,
    };
    assert!(encode_packet(&p).is_empty());
    assert!(encode_trace(&Trace::new()).is_empty());
}

#[test]
fn traces_written_one_after_another_concatenate() {
    let mut a = Trace::new();
    append_process_descriptor(&mut a, 1, 2);
    let mut b = Trace::new();
    append_process_descriptor(&mut b, 3, 4);
    let mut both = Trace::new();
    append_process_descriptor(&mut both, 3, 4);
    append_process_descriptor(&mut both, 1, 2);
    let mut joined = encode_trace(&a);
    joined.extend(encode_trace(&b));
    assert_eq!(encode_trace(&both), joined);
}

#[test]
fn prost_reads_back_the_frame() {
    let mut trace = Trace::new();
    append_process_descriptor(&mut trace, 300, 70000);
    let bytes = encode_trace(&trace);
    let mut buf: &[u8] = &bytes;
    let (tag, wire) = prost::encoding::decode_key(&mut buf).unwrap();
    assert_eq!(tag, 1);
    assert_eq!(wire, prost::encoding::WireType::LengthDelimited);
    let len = prost::encoding::decode_varint(&mut buf).unwrap();
    assert_eq!(len as usize, buf.len());
    let (tag, wire) = prost::encoding::decode_key(&mut buf).unwrap();
    assert_eq!(tag, 60);
    assert_eq!(wire, prost::encoding::WireType::LengthDelimited);
    let _len = prost::encoding::decode_varint(&mut buf).unwrap();
    let (tag, _) = prost::encoding::decode_key(&mut buf).unwrap();
    assert_eq!(tag, 1);
    assert_eq!(prost::encoding::decode_varint(&mut buf).unwrap(), 70000);
    let (tag, _) = prost::encoding::decode_key(&mut buf).unwrap();
    assert_eq!(tag, 3);
    assert_eq!(prost::encoding::decode_varint(&mut buf).unwrap(), 3);
    let (tag, _) = prost::encoding::decode_key(&mut buf).unwrap();
    assert_eq!(tag, 1);
    assert_eq!(prost::encoding::decode_varint(&mut buf).unwrap(), 300);
    let (tag, _) = prost::encoding::decode_key(&mut buf).unwrap();
    assert_eq!(tag, 3);
    assert_eq!(prost::encoding::decode_varint(&mut buf).unwrap(), 42);
    assert!(buf.is_empty());
}
