//! Static HTML source that serves alternating red and blue pages.

use vstd::prelude::*;

verus! {

/// The single-colour page for `color`: a viewport-filling block.
pub open spec fn page_html(color: Seq<char>) -> Seq<char> {
    "<!doctype html><html><body style=\\\"margin:0;background:"@ + color
        + ";\\\"><div style=\\\"width:100vw;height:100vh;background:"@ + color
        + ";\\\"></div></body></html>"@
}

/// A minimal HTML page that fills the viewport with the given colour.
pub fn html_with_color(color: &str) -> (r: String)
    ensures
        r@ == page_html(color@),
{
    let mut out = String::new();
    out.append("<!doctype html><html><body style=\\\"margin:0;background:");
    out.append(color);
    out.append(";\\\"><div style=\\\"width:100vw;height:100vh;background:");
    out.append(color);
    out.append(";\\\"></div></body></html>");
    out
}

/// Source of alternating pages: even requests are red, odd requests
/// blue, counted from construction.
#[derive(Debug, Clone, Copy, PartialEq, Eq, Structural)]
pub struct HtmlRotation {
    /// Number of pages served so far.
    pub served: usize,
}

impl HtmlRotation {
    /// A fresh rotation, starting on red.
    pub fn new() -> (r: HtmlRotation)
        ensures
            r.served == 0,
    {
        HtmlRotation { served: 0 }
    }

    /// The next page: red when the count of pages served so far is
    /// even, blue when odd.
    pub fn next_html(&mut self) -> (r: String)
        ensures
            old(self).served % 2 == 0 ==> r@ == page_html("red"@),
            old(self).served % 2 == 1 ==> r@ == page_html("blue"@),
            old(self).served < usize::MAX ==> final(self).served == old(self).served + 1,
            old(self).served == usize::MAX ==> final(self).served == 0,
    {
        let n = self.served;
        self.served = self.served.wrapping_add(1);
        if n % 2 == 0 {
            html_with_color("red")
        } else {
            html_with_color("blue")
        }
    }
}

} // verus!
