use lattica::stream::{
    decode_frame, encode_frame, length_prefix, read_length, response_chunks, stream_reply_frames, stream_route,
    AssemblyStep, ChunkRange, StreamAssembly, StreamError, StreamFrame, StreamMessage, StreamRequestHead,
    STREAM_CHUNK_SIZE,
};

#[test]
fn length_prefix_is_big_endian() {
    assert_eq!(length_prefix(0x01020304), [1, 2, 3, 4]);
    assert_eq!(read_length([1, 2, 3, 4]), 0x01020304);
    assert_eq!(read_length(length_prefix(70000)), 70000);
    assert_eq!(length_prefix(0), [0, 0, 0, 0]);
}

#[test]
fn frames_roundtrip() {
    let payload = vec![9u8, 8, 7];
    let mut bytes = encode_frame(&payload);
    assert_eq!(bytes, vec![0, 0, 0, 3, 9, 8, 7]);
    bytes.extend_from_slice(&[1, 1]);
    assert_eq!(decode_frame(&bytes), Some(payload));
    assert_eq!(decode_frame(&[0, 0, 0, 5, 1]), None);
    assert_eq!(decode_frame(&[0, 0]), None);
    assert_eq!(decode_frame(&[0, 0, 0, 0]), Some(vec![]));
}

#[test]
fn chunks_cover_payload() {
    assert!(response_chunks(0, 10).is_empty());
    assert_eq!(
        response_chunks(25, 10),
        vec![
            ChunkRange { start: 0, end: 10, is_end: false },
            ChunkRange { start: 10, end: 20, is_end: false },
            ChunkRange { start: 20, end: 25, is_end: true },
        ]
    );
    assert_eq!(response_chunks(20, 10).len(), 2);
    assert_eq!(response_chunks(1, STREAM_CHUNK_SIZE), vec![ChunkRange { start: 0, end: 1, is_end: true }]);
    assert_eq!(STREAM_CHUNK_SIZE, 16 * 1024 * 1024);
}

#[test]
fn assembly_gathers_until_last_piece() {
    let mut a = StreamAssembly::new();
    let step = a.on_frame(StreamFrame::Data(StreamMessage { id: "x".into(), data: vec![1, 2], is_end: false }));
    assert!(matches!(step, AssemblyStep::Continue));
    let step = a.on_frame(StreamFrame::Data(StreamMessage { id: "x".into(), data: vec![3], is_end: true }));
    assert!(matches!(step, AssemblyStep::Complete));
    assert_eq!(a.data, vec![1, 2, 3]);
}

#[test]
fn assembly_aborts_on_error_and_stops_on_other_frames() {
    let mut a = StreamAssembly::new();
    match a.on_frame(StreamFrame::Error(StreamError { id: "x".into(), error: "nope".into() })) {
        AssemblyStep::Abort(e) => assert_eq!(e, "nope"),
        _ => panic!("expected abort"),
    }
    let mut b = StreamAssembly::new();
    assert!(matches!(b.on_frame(StreamFrame::Close("x".into())), AssemblyStep::Complete));
    assert!(b.data.is_empty());
}

#[test]
fn reply_frames_for_success_and_failure() {
    let frames = stream_reply_frames(&"req".to_string(), Ok(("resp".to_string(), vec![5u8; 3])));
    assert_eq!(frames.len(), 2);
    match &frames[0] {
        StreamFrame::Data(m) => {
            assert_eq!(m.id, "resp");
            assert_eq!(m.data, vec![5, 5, 5]);
            assert!(m.is_end);
        }
        _ => panic!("expected data"),
    }
    assert!(matches!(&frames[1], StreamFrame::Close(id) if id == "resp"));
    let empty = stream_reply_frames(&"req".to_string(), Ok(("resp".to_string(), vec![])));
    assert_eq!(empty.len(), 1);
    let failed = stream_reply_frames(&"req".to_string(), Err("bad".to_string()));
    assert!(matches!(&failed[0], StreamFrame::Error(e) if e.id == "req" && e.error == "bad"));
    assert!(matches!(&failed[1], StreamFrame::Close(id) if id == "req"));
}

#[test]
fn reply_reassembles_into_payload() {
    let payload: Vec<u8> = (0..(STREAM_CHUNK_SIZE + 10)).map(|i| (i % 251) as u8).collect();
    let frames = stream_reply_frames(&"req".to_string(), Ok(("resp".to_string(), payload.clone())));
    assert_eq!(frames.len(), 3);
    let mut a = StreamAssembly::new();
    let mut done = false;
    for f in frames {
        if let AssemblyStep::Complete = a.on_frame(f) {
            done = true;
            break;
        }
    }
    assert!(done);
    assert_eq!(a.data, payload);
}

#[test]
fn stream_route_splits_or_rejects() {
    let ok = stream_route(&StreamRequestHead { id: "1".into(), method: "kv.put".into() }).ok().unwrap();
    assert_eq!(ok, ("kv".to_string(), "put".to_string()));
    let err = stream_route(&StreamRequestHead { id: "1".into(), method: "kvput".into() }).unwrap_err();
    assert_eq!((err.id.as_str(), err.error.as_str()), ("1", "Invalid method format"));
}
