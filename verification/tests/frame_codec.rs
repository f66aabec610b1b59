use tunnel_control::frame::{encode_frame, FrameDecoder, FrameError, FrameStep};

fn encode(payload: &[u8], cap: u32) -> Vec<u8> {
    encode_frame(&payload.to_vec(), cap).expect("payload within cap")
}

#[test]
fn round_trip_single_payload() {
    let payload = b"hello frame".to_vec();
    let encoded = encode(&payload, 1024);
    assert_eq!(encoded.len(), 4 + payload.len());
    assert_eq!(&encoded[0..4], &[11, 0, 0, 0]);

    let mut dec = FrameDecoder::new(1024);
    let frames = dec.decode_chunk(&encoded).expect("no framing fault");
    assert_eq!(frames, vec![payload]);
}

#[test]
fn round_trip_empty_payload() {
    let encoded = encode(b"", 16);
    let mut dec = FrameDecoder::new(16);
    let frames = dec.decode_chunk(&encoded).expect("no framing fault");
    assert_eq!(frames, vec![Vec::<u8>::new()]);
}

#[test]
fn concatenation_decodes_regardless_of_chunking() {
    let p1 = b"first".to_vec();
    let p2 = b"second payload".to_vec();
    let p3 = vec![0u8; 300];
    let mut stream = Vec::new();
    stream.extend_from_slice(&encode(&p1, 4096));
    stream.extend_from_slice(&encode(&p2, 4096));
    stream.extend_from_slice(&encode(&p3, 4096));

    for chunk_size in [1usize, 2, 3, 7, 50, stream.len()] {
        let mut dec = FrameDecoder::new(4096);
        let mut got: Vec<Vec<u8>> = Vec::new();
        for chunk in stream.chunks(chunk_size) {
            got.extend(dec.decode_chunk(chunk).expect("no framing fault"));
        }
        assert_eq!(got, vec![p1.clone(), p2.clone(), p3.clone()], "chunk size {chunk_size}");
    }
}

#[test]
fn short_prefix_is_incomplete() {
    let mut dec = FrameDecoder::new(64);
    let frames = dec.decode_chunk(&[5, 0]).expect("no framing fault");
    assert!(frames.is_empty());
    // The rest of the frame arrives later.
    let frames = dec.decode_chunk(&[0, 0, b'a', b'b', b'c', b'd', b'e']).expect("ok");
    assert_eq!(frames, vec![b"abcde".to_vec()]);
}

#[test]
fn encode_refuses_over_cap() {
    assert!(encode_frame(&vec![0u8; 11], 10).is_none());
    assert!(encode_frame(&vec![0u8; 10], 10).is_some());
}

#[test]
fn declared_length_over_cap_is_fatal() {
    // Declared length 1000 with cap 10.
    let bytes = [232u8, 3, 0, 0];
    let mut dec = FrameDecoder::new(10);
    match dec.decode_chunk(&bytes) {
        Err(FrameError::TooLarge) => {}
        _ => panic!("over-cap length must be fatal"),
    }
}

#[test]
fn eof_classification() {
    // Nothing buffered, or a truncated prefix: a clean close.
    let mut dec = FrameDecoder::new(64);
    assert!(dec.finish().is_ok());
    dec.decode_chunk(&[9, 0, 0]).expect("ok");
    assert!(dec.finish().is_ok());
    // A full prefix whose payload never arrives: fatal.
    let mut dec = FrameDecoder::new(64);
    dec.decode_chunk(&[9, 0, 0, 0, b'a']).expect("ok");
    assert!(matches!(dec.finish(), Err(FrameError::TruncatedPayload)));
}

#[test]
fn next_frame_steps_through_buffer() {
    let mut dec = FrameDecoder::new(64);
    dec.feed(&encode(b"xy", 64));
    match dec.next_frame() {
        FrameStep::Payload(p) => assert_eq!(p, b"xy".to_vec()),
        _ => panic!("expected a payload"),
    }
    assert!(matches!(dec.next_frame(), FrameStep::Incomplete));
}
