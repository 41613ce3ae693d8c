use monazite::framing::{frame_message, read_frame};

#[test]
fn frame_then_read_round_trips() {
    let body: Vec<u8> = (0u16..300).map(|i| (i % 256) as u8).collect();
    let framed = frame_message(&body);
    assert_eq!(framed.len(), body.len() + 4);
    assert_eq!(&framed[0..4], &[44, 1, 0, 0]);
    let (parsed, consumed) = read_frame(&framed).unwrap();
    assert_eq!(parsed, body);
    assert_eq!(consumed, framed.len());
}

#[test]
fn two_frames_read_back_to_back() {
    let mut buf = frame_message(b"first");
    buf.extend_from_slice(&frame_message(b"second!"));
    let (m1, used1) = read_frame(&buf).unwrap();
    assert_eq!(m1, b"first");
    let (m2, used2) = read_frame(&buf[used1..]).unwrap();
    assert_eq!(m2, b"second!");
    assert_eq!(used1 + used2, buf.len());
}

#[test]
fn incomplete_frames_are_rejected() {
    assert!(read_frame(&[1, 0]).is_none());
    // header promises 5 bytes, only 2 follow
    assert!(read_frame(&[5, 0, 0, 0, 9, 9]).is_none());
}
