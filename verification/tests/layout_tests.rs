use monazite::layout::{html_to_display_list, rgba_u32, LayoutError};
use monazite::messages::DrawCmd;

#[test]
fn dl_has_background() {
    let dl = html_to_display_list("<html></html>", (800, 600)).unwrap();
    assert!(!dl.items.is_empty());
}

#[test]
fn header_rect_present_when_h1() {
    let dl = html_to_display_list("<h1>Example</h1>", (800, 600)).unwrap();
    assert!(dl.items.len() >= 2, "expect bg + header");
}

#[test]
fn header_is_dark_only_with_a_closed_h1() {
    let dl = html_to_display_list("<H1>t</H1>", (100, 100)).unwrap();
    assert_eq!(
        dl.items[1],
        DrawCmd::Rect { x: 0, y: 0, w: 100, h: 48, rgba: rgba_u32(32, 32, 32, 255) }
    );
    let dl = html_to_display_list("<h1>unclosed", (100, 100)).unwrap();
    assert_eq!(
        dl.items[1],
        DrawCmd::Rect { x: 0, y: 0, w: 100, h: 48, rgba: rgba_u32(200, 200, 200, 255) }
    );
}

#[test]
fn blank_html_is_an_error() {
    let err = html_to_display_list(" \t\n", (10, 10)).unwrap_err();
    assert_eq!(err, LayoutError::Empty);
    assert_eq!(err.message(), "empty html");
}

#[test]
fn rgba_packs_argb() {
    assert_eq!(rgba_u32(0x12, 0x34, 0x56, 0x78), 0x78123456);
    assert_eq!(rgba_u32(255, 255, 255, 255), 0xFFFFFFFF);
}
