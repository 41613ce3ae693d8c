//! Minimal layout engine: turns HTML into a two-rectangle display list —
//! a white page background and a header bar whose shade depends on
//! whether an `<h1>` element is present.

use vstd::prelude::*;

use crate::messages::{DisplayList, DrawCmd};
use crate::text::{contains_ci_seq, is_space_char, str_contains_ci};

verus! {

/// Failure of layout.
#[derive(Debug, Clone, Copy, PartialEq, Eq, Structural)]
pub enum LayoutError {
    /// The HTML was empty or all whitespace.
    Empty,
}

impl LayoutError {
    /// Human-readable description of the error.
    pub fn message(&self) -> (r: &'static str)
        ensures
            r@ == "empty html"@,
    {
        "empty html"
    }
}

/// Colour packing rule: `0xAARRGGBB`.
pub open spec fn rgba_spec(r: u8, g: u8, b: u8, a: u8) -> u32 {
    ((a as u32) << 24) | ((r as u32) << 16) | ((g as u32) << 8) | (b as u32)
}

/// Pack a colour as `0xAARRGGBB`.
pub fn rgba_u32(r: u8, g: u8, b: u8, a: u8) -> (c: u32)
    ensures
        c == rgba_spec(r, g, b, a),
{
    ((a as u32) << 24) | ((r as u32) << 16) | ((g as u32) << 8) | (b as u32)
}

/// The HTML has both an opening `<h1` and a closing `</h1>` tag,
/// ASCII-case-insensitively.
pub open spec fn has_h1(html: Seq<char>) -> bool {
    contains_ci_seq(html, "<h1"@) && contains_ci_seq(html, "</h1>"@)
}

/// Lay the HTML out as a display list: a white background covering the
/// viewport and a 48-pixel header bar, dark when an `<h1>` element is
/// present and light grey otherwise. Fails only for input that is empty
/// or all whitespace.
pub fn html_to_display_list(html: &str, viewport: (u32, u32)) -> (r: Result<
    DisplayList,
    LayoutError,
>)
    ensures
        (forall|i: int| 0 <= i < html@.len() ==> is_space_char(html@[i])) ==> r == Err::<
            DisplayList,
            _,
        >(LayoutError::Empty),
        (exists|i: int| 0 <= i < html@.len() && !is_space_char(html@[i])) ==> (r matches Ok(dl)
            && dl.items@.len() == 2 && dl.items@[0] == (DrawCmd::Rect {
            x: 0,
            y: 0,
            w: viewport.0,
            h: viewport.1,
            rgba: rgba_spec(255, 255, 255, 255),
        }) && dl.items@[1] == (DrawCmd::Rect {
            x: 0,
            y: 0,
            w: viewport.0,
            h: 48,
            rgba: if has_h1(html@) {
                rgba_spec(32, 32, 32, 255)
            } else {
                rgba_spec(200, 200, 200, 255)
            },
        })),
{
    if crate::text::all_spaces(html) {
        return Err(LayoutError::Empty);
    }
    let (w, h) = viewport;
    let mut items: Vec<DrawCmd> = Vec::new();
    items.push(DrawCmd::Rect { x: 0, y: 0, w, h, rgba: rgba_u32(255, 255, 255, 255) });
    let dark = str_contains_ci(html, "<h1") && str_contains_ci(html, "</h1>");
    let (cr, cg, cb) = if dark {
        (32u8, 32u8, 32u8)
    } else {
        (200u8, 200u8, 200u8)
    };
    items.push(DrawCmd::Rect { x: 0, y: 0, w, h: 48, rgba: rgba_u32(cr, cg, cb, 255) });
    Ok(DisplayList { items })
}

} // verus!
