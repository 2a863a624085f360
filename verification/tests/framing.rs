use bomberust::{encode_frame, RtpBuf};

#[test]
fn single_frame_split_across_reads() {
    // A length prefix split before its second byte, then the rest.
    let mut buf = RtpBuf::new();
    let first = buf.feed(&[0x00]);
    assert!(first.is_empty());
    let second = buf.feed(&[0x05, b'h', b'e', b'l', b'l', b'o']);
    assert_eq!(second, vec![b"hello".to_vec()]);
}

#[test]
fn whole_frame_in_one_read() {
    let mut buf = RtpBuf::new();
    let frames = buf.feed(&[0x00, 0x03, 1, 2, 3]);
    assert_eq!(frames, vec![vec![1, 2, 3]]);
}

#[test]
fn several_frames_in_one_read() {
    let mut buf = RtpBuf::new();
    let frames = buf.feed(&[0x00, 0x01, 9, 0x00, 0x02, 7, 8, 0x00, 0x00]);
    assert_eq!(frames, vec![vec![9], vec![7, 8], vec![]]);
}

#[test]
fn empty_frame_is_produced() {
    let mut buf = RtpBuf::new();
    let frames = buf.feed(&[0x00, 0x00]);
    assert_eq!(frames, vec![Vec::<u8>::new()]);
}

#[test]
fn chunking_does_not_change_the_frames() {
    // The same byte stream, fed whole and fed byte by byte.
    let mut stream: Vec<u8> = Vec::new();
    stream.extend(encode_frame(&[1, 2, 3]));
    stream.extend(encode_frame(&[]));
    stream.extend(encode_frame(&[250, 251]));

    let mut whole = RtpBuf::new();
    let all_at_once = whole.feed(&stream);

    let mut split = RtpBuf::new();
    let mut dribbled: Vec<Vec<u8>> = Vec::new();
    for b in &stream {
        dribbled.extend(split.feed(&[*b]));
    }

    assert_eq!(all_at_once, dribbled);
    assert_eq!(all_at_once, vec![vec![1, 2, 3], vec![], vec![250, 251]]);
}

#[test]
fn encode_frame_prefixes_the_length() {
    let frame = encode_frame(&[0xAA; 300]);
    assert_eq!(frame[0], 0x01);
    assert_eq!(frame[1], 0x2C);
    assert_eq!(frame.len(), 302);
}

#[test]
fn partial_body_is_retained() {
    let mut buf = RtpBuf::new();
    assert!(buf.feed(&[0x00, 0x04, 1, 2]).is_empty());
    let frames = buf.feed(&[3, 4]);
    assert_eq!(frames, vec![vec![1, 2, 3, 4]]);
}
