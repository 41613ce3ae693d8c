use monazite::layout::{html_to_display_list, rgba_u32};
use monazite::messages::{DisplayList, DrawCmd};
use monazite::pixels::{is_roughly_color_rgba8, rasterize_dl_rgba8, unpack_argb_u32};

#[test]
fn mostly_red() {
    let pixels = [255, 0, 0, 255, 250, 5, 5, 255, 240, 10, 10, 255, 255, 0, 0, 255];
    assert!(is_roughly_color_rgba8(&pixels, (255, 0, 0), 16));
    assert!(!is_roughly_color_rgba8(&pixels, (0, 0, 255), 16));
}

#[test]
fn too_short_buffers_never_match() {
    assert!(!is_roughly_color_rgba8(&[255, 0, 0], (255, 0, 0), 255));
    assert!(!is_roughly_color_rgba8(&[], (0, 0, 0), 255));
}

#[test]
fn unpack_splits_argb() {
    assert_eq!(unpack_argb_u32(0x78123456), (0x78, 0x12, 0x34, 0x56));
    assert_eq!(unpack_argb_u32(0), (0, 0, 0, 0));
}

#[test]
fn rasterize_fills_and_blends() {
    // one opaque red rectangle over the top-left pixel of a 2x2 buffer
    let dl = DisplayList {
        items: vec![DrawCmd::Rect { x: 0, y: 0, w: 1, h: 1, rgba: rgba_u32(255, 0, 0, 255) }],
    };
    let buf = rasterize_dl_rgba8(2, 2, &dl);
    assert_eq!(buf.len(), 16);
    assert_eq!(&buf[0..4], &[255, 0, 0, 255]);
    // untouched pixels stay transparent black
    assert_eq!(&buf[4..8], &[0, 0, 0, 0]);

    // half-transparent grey over black: (200*128 + 0*127)/255 = 100
    let dl = DisplayList {
        items: vec![DrawCmd::Rect { x: 0, y: 0, w: 1, h: 1, rgba: rgba_u32(200, 200, 200, 128) }],
    };
    let buf = rasterize_dl_rgba8(1, 1, &dl);
    assert_eq!(&buf[0..4], &[100, 100, 100, 255]);
}

#[test]
fn rasterized_layout_is_mostly_white() {
    let dl = html_to_display_list("<p>plain</p>", (64, 64)).unwrap();
    let buf = rasterize_dl_rgba8(64, 64, &dl);
    // a white page with a light header: still roughly white on average
    assert!(is_roughly_color_rgba8(&buf, (255, 255, 255), 60));
    assert!(!is_roughly_color_rgba8(&buf, (0, 0, 0), 60));
}
