//! Assistant runtime: a small deterministic summariser. When the input
//! mentions the canonical example phrase it answers with that phrase;
//! otherwise it keeps the first words of the input.

use vstd::prelude::*;

use crate::messages::{AiRequest, AiResponse};
use crate::text::{
    contains_ci_seq, is_space, lemma_next_scan, next_non_space, next_space, push_char,
    str_contains_ci, trim_spec, trim_str,
};

verus! {

/// Failure of the assistant runtime.
#[derive(Debug, Clone, Copy, PartialEq, Eq, Structural)]
pub enum AiError {
    /// The prompt was empty after trimming.
    Empty,
}

impl AiError {
    /// Human-readable description of the error.
    pub fn message(&self) -> (r: &'static str)
        ensures
            r@ == "empty prompt"@,
    {
        "empty prompt"
    }
}

/// The first `k` whitespace-separated words of `s` starting at `i`,
/// joined by single spaces; `lead_space` says whether a separator is
/// owed before the next word.
pub open spec fn summary_rest(s: Seq<char>, i: int, k: nat, lead_space: bool) -> Seq<char>
    decreases s.len() - i, k
        when 0 <= i <= s.len()
        via summary_rest_decreases
{
    if k == 0 {
        Seq::empty()
    } else {
        let ws = next_non_space(s, i);
        if ws >= s.len() {
            Seq::empty()
        } else {
            let e = next_space(s, ws);
            (if lead_space {
                seq![' ']
            } else {
                Seq::empty()
            }) + s.subrange(ws, e) + summary_rest(s, e, (k - 1) as nat, true)
        }
    }
}

#[via_fn]
proof fn summary_rest_decreases(s: Seq<char>, i: int, k: nat, lead_space: bool) {
    if k > 0 {
        lemma_next_scan(s, i);
        let ws = next_non_space(s, i);
        if ws < s.len() {
            lemma_next_scan(s, ws);
        }
    }
}

/// What the summariser returns: the example phrase when the input
/// mentions it (ignoring ASCII case), else the first `max(k, 1)` words
/// joined by single spaces.
pub open spec fn summary_spec(s: Seq<char>, k: nat) -> Seq<char> {
    if contains_ci_seq(s, "example domain"@) {
        "Example Domain"@
    } else {
        summary_rest(s, 0, if k == 0 { 1 } else { k }, false)
    }
}

/// Summarise `input`: return the canonical example phrase when the
/// input mentions it, else the first `max(max_tokens, 1)` words.
#[verifier::loop_isolation(false)]
pub fn summarize_text(input: &str, max_tokens: usize) -> (r: String)
    ensures
        r@ == summary_spec(input@, max_tokens as nat),
{
    if str_contains_ci(input, "example domain") {
        return String::from_str("Example Domain");
    }
    let len = input.unicode_len();
    let limit = if max_tokens == 0 {
        1
    } else {
        max_tokens
    };
    let mut out = String::new();
    let mut i: usize = 0;
    let mut remaining = limit;
    let mut first = true;
    while remaining > 0
        invariant
            i <= len,
            len == input@.len(),
            summary_rest(input@, 0, limit as nat, false) == out@ + summary_rest(
                input@,
                i as int,
                remaining as nat,
                !first,
            ),
        decreases remaining,
    {
        let mut ws = i;
        while ws < len && is_space(input.get_char(ws))
            invariant
                i <= ws <= len,
                len == input@.len(),
                next_non_space(input@, i as int) == next_non_space(input@, ws as int),
            decreases len - ws,
        {
            ws = ws + 1;
        }
        proof {
            assert(next_non_space(input@, i as int) == ws);
        }
        if ws >= len {
            proof {
                assert(summary_rest(input@, i as int, remaining as nat, !first) =~= Seq::<
                    char,
                >::empty());
                assert(out@ =~= summary_rest(input@, 0, limit as nat, false));
            }
            return out;
        }
        let mut e = ws;
        while e < len && !is_space(input.get_char(e))
            invariant
                ws <= e <= len,
                len == input@.len(),
                next_space(input@, ws as int) == next_space(input@, e as int),
            decreases len - e,
        {
            e = e + 1;
        }
        proof {
            assert(next_space(input@, ws as int) == e);
        }
        if !first {
            push_char(&mut out, ' ');
        }
        let word = input.substring_char(ws, e);
        out.append(word);
        proof {
            assert(summary_rest(input@, i as int, remaining as nat, !first) == (if !first {
                seq![' ']
            } else {
                Seq::<char>::empty()
            }) + input@.subrange(ws as int, e as int) + summary_rest(
                input@,
                e as int,
                (remaining - 1) as nat,
                true,
            ));
        }
        i = e;
        remaining = remaining - 1;
        first = false;
        proof {
            assert(summary_rest(input@, 0, limit as nat, false) =~= out@ + summary_rest(
                input@,
                i as int,
                remaining as nat,
                !first,
            ));
        }
    }
    proof {
        assert(out@ =~= summary_rest(input@, 0, limit as nat, false));
    }
    out
}

/// Answer a prompt: reject one that is empty after trimming, else
/// summarise the trimmed prompt to at most `max_tokens` words.
pub fn ask(req: AiRequest) -> (r: Result<AiResponse, AiError>)
    ensures
        trim_spec(req.prompt@).len() == 0 ==> r == Err::<AiResponse, _>(AiError::Empty),
        trim_spec(req.prompt@).len() > 0 ==> (r matches Ok(resp) && resp.text@ == summary_spec(
            trim_spec(req.prompt@),
            req.max_tokens as nat,
        )),
{
    let p = trim_str(req.prompt.as_str());
    if p.unicode_len() == 0 {
        return Err(AiError::Empty);
    }
    let text = summarize_text(p, req.max_tokens as usize);
    Ok(AiResponse { text })
}

} // verus!
