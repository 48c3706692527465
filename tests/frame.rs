use zbench::frame::{
    decode_frame, decode_length, encode, encode_frame, split_frames, FrameDecoder, FrameError,
    Framing,
};

#[test]
fn frame_of_64_bytes() {
    let body = vec![0xabu8; 64];
    let f = encode_frame(&body).unwrap();
    assert_eq!(f.len(), 66);
    assert_eq!(&f[0..2], &[0x40, 0x00]);
    assert_eq!(&f[2..], &body[..]);
}

#[test]
fn frame_round_trip() {
    let body: Vec<u8> = (0..300u32).map(|i| (i % 251) as u8).collect();
    let f = encode_frame(&body).unwrap();
    assert_eq!(f.len(), body.len() + 2);
    assert_eq!(&f[0..2], &[0x2c, 0x01]);
    let (b, used) = decode_frame(&f).unwrap();
    assert_eq!(b, body);
    assert_eq!(used, 302);
}

#[test]
fn empty_frame() {
    let f = encode_frame(&[]).unwrap();
    assert_eq!(f, vec![0, 0]);
    assert_eq!(decode_frame(&f), Some((vec![], 2)));
}

#[test]
fn largest_frame() {
    let body = vec![1u8; 65535];
    let f = encode_frame(&body).unwrap();
    assert_eq!(&f[0..2], &[0xff, 0xff]);
    assert_eq!(f.len(), 65537);
    assert_eq!(decode_frame(&f).unwrap().0.len(), 65535);
}

#[test]
fn frame_too_long() {
    let body = vec![1u8; 65536];
    assert_eq!(encode_frame(&body), Err(FrameError::TooLong { len: 65536 }));
    assert_eq!(encode(Framing::Stream, &body), Err(FrameError::TooLong { len: 65536 }));
}

#[test]
fn datagram_has_no_prefix() {
    let body = vec![5u8, 6, 7];
    assert_eq!(encode(Framing::Datagram, &body), Ok(vec![5, 6, 7]));
    assert_eq!(encode(Framing::Stream, &body), Ok(vec![3, 0, 5, 6, 7]));
}

#[test]
fn decode_waits_for_whole_frame() {
    assert_eq!(decode_frame(&[]), None);
    assert_eq!(decode_frame(&[3]), None);
    assert_eq!(decode_frame(&[3, 0, 1, 2]), None);
    assert_eq!(decode_frame(&[3, 0, 1, 2, 3, 9]), Some((vec![1, 2, 3], 5)));
}

#[test]
fn length_prefix_is_little_endian() {
    assert_eq!(decode_length(0x00, 0x40), 0x4000);
    assert_eq!(decode_length(0x40, 0x00), 64);
    assert_eq!(decode_length(0xff, 0xff), 65535);
}

#[test]
fn decoder_tolerates_partial_reads() {
    let mut stream = encode_frame(&[1, 2, 3]).unwrap();
    stream.extend(encode_frame(&[4, 5]).unwrap());
    let mut d = FrameDecoder::new();
    d.push(&stream[0..1]);
    assert_eq!(d.next_frame(), None);
    d.push(&stream[1..4]);
    assert_eq!(d.next_frame(), None);
    d.push(&stream[4..6]);
    assert_eq!(d.next_frame(), Some(vec![1, 2, 3]));
    assert_eq!(d.next_frame(), None);
    d.push(&stream[6..]);
    assert_eq!(d.next_frame(), Some(vec![4, 5]));
    assert_eq!(d.next_frame(), None);
}

#[test]
fn split_whole_stream() {
    let mut stream = encode_frame(&[1, 2, 3]).unwrap();
    stream.extend(encode_frame(&[]).unwrap());
    stream.extend(encode_frame(&[9]).unwrap());
    assert_eq!(split_frames(&stream), Ok(vec![vec![1, 2, 3], vec![], vec![9]]));
    stream.push(7);
    assert_eq!(split_frames(&stream), Ok(vec![vec![1, 2, 3], vec![], vec![9]]));
}

#[test]
fn split_truncated_stream() {
    let stream = vec![1u8, 0, 5, 4, 0, 1];
    assert_eq!(
        split_frames(&stream),
        Err(FrameError::Truncated { needed: 4, available: 1 })
    );
}

#[test]
fn established_session_counts_a_64_byte_frame() {
    let mut body = vec![0x40u8, 0x00];
    body.extend(vec![7u8; 64]);
    let mut d = FrameDecoder::new();
    d.push(&body);
    let frame = d.next_frame().unwrap();
    assert_eq!(frame.len(), 64);
    let mut a = zbench::aggregator::Aggregator::new();
    assert!(a.record_bytes((2 + frame.len()) as u64));
    assert_eq!(a.take_report(1_000_000).unwrap().bytes, 66);
}
