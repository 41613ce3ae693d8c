use monazite::frame::ExternalFrame;

#[test]
fn new_size() {
    let f = ExternalFrame::new((2, 3));
    assert_eq!(f.pixels.len(), (2 * 4 * 3) as usize);
    assert_eq!(f.stride, 8);
}

#[test]
fn new_frame_is_zeroed() {
    let f = ExternalFrame::new((4, 1));
    assert!(f.pixels.iter().all(|&b| b == 0));
    assert_eq!(f.size, (4, 1));
}
