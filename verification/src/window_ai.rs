//! The `window.ai`-style convenience surface over the assistant
//! runtime.

use vstd::prelude::*;

use crate::ai::{summarize_text, summary_spec};

verus! {

/// Answer a prompt with a summary of at most sixteen words.
pub fn ask(prompt: &str) -> (r: String)
    ensures
        r@ == summary_spec(prompt@, 16),
{
    summarize_text(prompt, 16)
}

/// Binding-friendly form of [`ask`] taking and returning owned
/// strings.
pub fn ask_wasm(prompt: String) -> (r: String)
    ensures
        r@ == summary_spec(prompt@, 16),
{
    ask(prompt.as_str())
}

} // verus!
