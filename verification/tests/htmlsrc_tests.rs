use monazite::htmlsrc::{html_with_color, HtmlRotation};

#[test]
fn alternates() {
    let mut src = HtmlRotation::new();
    let a = src.next_html();
    let b = src.next_html();
    assert_ne!(a, b);
}

#[test]
fn pages_carry_the_requested_color() {
    let page = html_with_color("red");
    assert!(page.contains("background:red"));
    let mut src = HtmlRotation::new();
    assert!(src.next_html().contains("red"));
    assert!(src.next_html().contains("blue"));
    assert!(src.next_html().contains("red"));
}
