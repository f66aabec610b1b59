use tunnel_control::compress::{
    compressed_round_trip, SessionDecoder, SessionEncoder, StreamCompressor, StreamDecompressor,
};

#[test]
fn compressed_stream_round_trips() {
    let bodies: Vec<Vec<u8>> = vec![
        b"first message".to_vec(),
        vec![b'a'; 5000],
        b"".to_vec(),
        (0u8..=255).collect::<Vec<u8>>().repeat(8),
    ];
    let mut comp = StreamCompressor::new();
    let mut wire = Vec::new();
    for body in &bodies {
        wire.extend_from_slice(&comp.compress_body(body));
    }

    // Feed the compressed stream back at arbitrary boundaries.
    for chunk_size in [1usize, 3, 17, 1000, wire.len()] {
        let mut dec = StreamDecompressor::new();
        let mut plain = Vec::new();
        for chunk in wire.chunks(chunk_size) {
            plain.extend_from_slice(&dec.decompress_chunk(chunk).expect("valid stream"));
        }
        let expected: Vec<u8> = bodies.iter().flatten().copied().collect();
        assert_eq!(plain, expected, "chunk size {chunk_size}");
    }
}

#[test]
fn compression_shrinks_repetitive_bodies() {
    let mut comp = StreamCompressor::new();
    let body = vec![b'z'; 20000];
    let compressed = comp.compress_body(&body);
    assert!(compressed.len() < body.len() / 10);
}

#[test]
fn corrupt_stream_is_rejected() {
    let mut dec = StreamDecompressor::new();
    let garbage = vec![0xffu8; 16];
    assert!(dec.decompress_chunk(&garbage).is_err());
}

#[test]
fn plain_session_passes_bytes_through() {
    let mut enc = SessionEncoder::new(false);
    let mut dec = SessionDecoder::new(false);
    let out = enc.encode_body(b"untouched");
    assert_eq!(out, b"untouched".to_vec());
    let plain = dec.decode_body(&out).expect("plain never fails");
    assert_eq!(plain, b"untouched".to_vec());
}

#[test]
fn compressed_session_reassembles_multi_frame_payload() {
    // A payload compressed on one side of the session comes out exactly
    // on the other, even when its compressed form crosses many frames.
    let mut enc = SessionEncoder::new(true);
    let mut dec = SessionDecoder::new(true);
    let payloads: Vec<Vec<u8>> = vec![
        b"hello".to_vec(),
        vec![7u8; 40000],
        b"tail".to_vec(),
    ];
    let mut wire = Vec::new();
    for p in &payloads {
        wire.extend_from_slice(&enc.encode_body(p));
    }
    let mut delivered = Vec::new();
    for frame in wire.chunks(512) {
        delivered.extend_from_slice(&dec.decode_body(frame).expect("valid stream"));
    }
    let expected: Vec<u8> = payloads.iter().flatten().copied().collect();
    assert_eq!(delivered, expected);
}


#[test]
fn trailing_bytes_after_stream_end_are_rejected() {
    // A finished deflate stream followed by trailing bytes must be
    // reported corrupt, not spun on: the decompressor makes no progress
    // past the end-of-stream marker.
    let mut finished = Vec::with_capacity(64);
    let mut comp = flate2::Compress::new(flate2::Compression::new(6), false);
    comp.compress_vec(b"payload", &mut finished, flate2::FlushCompress::Finish)
        .expect("compresses");
    finished.push(0xAA);
    finished.push(0xBB);
    let mut dec = StreamDecompressor::new();
    assert!(dec.decompress_chunk(&finished).is_err());
}

#[test]
fn verified_round_trip_function_delivers_all_bodies() {
    let bodies = vec![
        b"alpha".to_vec(),
        Vec::new(),
        vec![9u8; 3000],
        b"omega".to_vec(),
    ];
    let delivered = compressed_round_trip(&bodies);
    let expected: Vec<u8> = bodies.iter().flatten().copied().collect();
    assert_eq!(delivered, expected);
}
