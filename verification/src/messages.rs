//! Message types exchanged between the shell's subsystems.

use vstd::prelude::*;

verus! {

/// A prompt for the assistant runtime.
#[derive(Debug)]
pub struct AiRequest {
    /// The text to work on.
    pub prompt: String,
    /// Upper bound on the number of words of the reply.
    pub max_tokens: u32,
}

/// Reply of the assistant runtime.
#[derive(Debug)]
pub struct AiResponse {
    /// The produced text.
    pub text: String,
}

/// One drawing command of a display list.
#[derive(Debug, Clone, Copy, PartialEq, Eq, Structural)]
pub enum DrawCmd {
    /// An axis-aligned filled rectangle.
    Rect {
        /// Left edge in pixels.
        x: u32,
        /// Top edge in pixels.
        y: u32,
        /// Width in pixels.
        w: u32,
        /// Height in pixels.
        h: u32,
        /// Colour packed as `0xAARRGGBB`.
        rgba: u32,
    },
}

/// Ordered list of drawing commands, painted first to last.
#[derive(Debug)]
pub struct DisplayList {
    /// The commands.
    pub items: Vec<DrawCmd>,
}

impl Clone for AiRequest {
    fn clone(&self) -> (r: Self)
        ensures
            r.prompt@ == self.prompt@,
            r.max_tokens == self.max_tokens,
    {
        AiRequest { prompt: self.prompt.clone(), max_tokens: self.max_tokens }
    }
}

impl Clone for HttpRequest {
    fn clone(&self) -> (r: Self)
        ensures
            r.url@ == self.url@,
    {
        HttpRequest { url: self.url.clone() }
    }
}

/// A request to fetch one resource.
#[derive(Debug)]
pub struct HttpRequest {
    /// The resource locator.
    pub url: String,
}

} // verus!
