//! Naive HTML sanitiser: removes `<script>...</script>` blocks and
//! inline `on*=` event-handler attributes. It is a character-level
//! filter, not a parser, and is meant for embedding simple markup.

use vstd::prelude::*;

use crate::text::{
    find_char, find_ci, find_space_gt, first_char_from, first_ci_from, first_space_gt_from,
    lemma_first_char_from, lemma_first_ci_from, lemma_first_space_gt_from, push_char,
};

verus! {

/// Failure of sanitising.
#[derive(Debug, Clone, Copy, PartialEq, Eq, Structural)]
pub enum DomError {
    /// The input was empty.
    Invalid,
}

impl DomError {
    /// Human-readable description of the error.
    pub fn message(&self) -> (r: &'static str)
        ensures
            r@ == "invalid input"@,
    {
        "invalid input"
    }
}

/// The opening tag prefix sought by the script stripper.
pub open spec fn script_open() -> Seq<char> {
    seq!['<', 's', 'c', 'r', 'i', 'p', 't']
}

/// The closing tag sought by the script stripper.
pub open spec fn script_close() -> Seq<char> {
    seq!['<', '/', 's', 'c', 'r', 'i', 'p', 't', '>']
}

/// What remains of `s` from position `from` once every script block is
/// removed: text up to the next `<script` is kept, everything up to and
/// including the next `</script>` is dropped, and a block without a
/// closing tag swallows the rest.
pub open spec fn strip_scripts_from(s: Seq<char>, from: int) -> Seq<char>
    decreases s.len() - from
        when 0 <= from <= s.len()
        via strip_scripts_from_decreases
{
    match first_ci_from(s, script_open(), from) {
        None => s.subrange(from, s.len() as int),
        Some(i) => s.subrange(from, i) + (match first_ci_from(s, script_close(), i) {
            Some(j) => strip_scripts_from(s, j + 9),
            None => Seq::empty(),
        }),
    }
}

#[via_fn]
proof fn strip_scripts_from_decreases(s: Seq<char>, from: int) {
    lemma_first_ci_from(s, script_open(), from);
    match first_ci_from(s, script_open(), from) {
        Some(i) => {
            lemma_first_ci_from(s, script_close(), i);
        },
        None => {},
    }
}

/// Whether position `i` of `t` begins an inline event-handler
/// attribute to drop: `o`/`O` followed by `n`/`N`, more than three
/// characters of input left, and an `=` somewhere to the right.
pub open spec fn on_attr_at(t: Seq<char>, i: int) -> bool {
    &&& 0 <= i < t.len()
    &&& (t[i] == 'o' || t[i] == 'O')
    &&& t.len() - i > 3
    &&& (t[i + 1] == 'n' || t[i + 1] == 'N')
    &&& first_char_from(t, i, '=') is Some
}

/// Position after the attribute value that starts being skipped at `i`:
/// after the matching quote for a quoted value, at the next space or
/// `>` for an unquoted one.
pub open spec fn on_attr_end(t: Seq<char>, i: int) -> int {
    let e = first_char_from(t, i, '=')->Some_0;
    let after_eq = e + 1;
    if after_eq < t.len() && (t[after_eq] == '"' || t[after_eq] == '\'') {
        let q = t[after_eq];
        match first_char_from(t, after_eq + 1, q) {
            Some(k) => if k + 1 < t.len() {
                k + 1
            } else {
                t.len() as int
            },
            None => t.len() as int,
        }
    } else {
        first_space_gt_from(t, after_eq)
    }
}

/// What remains of `t` from position `i` once every inline
/// event-handler attribute is removed.
pub open spec fn strip_on_attrs_from(t: Seq<char>, i: int) -> Seq<char>
    decreases t.len() - i
        when 0 <= i <= t.len()
        via strip_on_attrs_from_decreases
{
    if i >= t.len() {
        Seq::empty()
    } else if on_attr_at(t, i) {
        strip_on_attrs_from(t, on_attr_end(t, i))
    } else {
        seq![t[i]] + strip_on_attrs_from(t, i + 1)
    }
}

#[via_fn]
proof fn strip_on_attrs_from_decreases(t: Seq<char>, i: int) {
    if 0 <= i < t.len() && on_attr_at(t, i) {
        lemma_on_attr_end(t, i);
    }
}

proof fn lemma_on_attr_end(t: Seq<char>, i: int)
    requires
        0 <= i < t.len(),
        on_attr_at(t, i),
    ensures
        i < on_attr_end(t, i) <= t.len(),
{
    lemma_first_char_from(t, i, '=');
    let e = first_char_from(t, i, '=')->Some_0;
    assert(t[i] != '=');
    let after_eq = e + 1;
    if after_eq < t.len() && (t[after_eq] == '"' || t[after_eq] == '\'') {
        let q = t[after_eq];
        lemma_first_char_from(t, after_eq + 1, q);
    } else {
        lemma_first_space_gt_from(t, after_eq);
    }
}

/// Remove every `<script>...</script>` block of `s`.
fn strip_scripts(s: &str) -> (r: String)
    ensures
        r@ == strip_scripts_from(s@, 0),
{
    let len = s.unicode_len();
    let mut out = String::new();
    let mut from: usize = 0;
    proof {
        reveal_strlit("<script");
        reveal_strlit("</script>");
        assert("<script"@ =~= script_open());
        assert("</script>"@ =~= script_close());
    }
    loop
        invariant
            from <= len,
            len == s@.len(),
            strip_scripts_from(s@, 0) == out@ + strip_scripts_from(s@, from as int),
            "<script"@ == script_open(),
            "</script>"@ == script_close(),
        decreases len - from,
    {
        match find_ci(s, "<script", from) {
            None => {
                let tail = s.substring_char(from, len);
                out.append(tail);
                proof {
                    assert(out@ =~= strip_scripts_from(s@, 0));
                }
                return out;
            },
            Some(i) => {
                proof {
                    lemma_first_ci_from(s@, script_open(), from as int);
                }
                let head = s.substring_char(from, i);
                out.append(head);
                match find_ci(s, "</script>", i) {
                    Some(j) => {
                        proof {
                            lemma_first_ci_from(s@, script_close(), i as int);
                            assert(strip_scripts_from(s@, from as int) == s@.subrange(
                                from as int,
                                i as int,
                            ) + strip_scripts_from(s@, j + 9));
                        }
                        from = j + 9;
                        proof {
                            assert(strip_scripts_from(s@, 0) =~= out@ + strip_scripts_from(
                                s@,
                                from as int,
                            ));
                        }
                    },
                    None => {
                        proof {
                            assert(strip_scripts_from(s@, from as int) == s@.subrange(
                                from as int,
                                i as int,
                            ) + Seq::<char>::empty());
                            assert(out@ =~= strip_scripts_from(s@, 0));
                        }
                        return out;
                    },
                }
            },
        }
    }
}

/// Remove every inline event-handler attribute of `t`.
fn strip_on_attrs(t: &str) -> (r: String)
    ensures
        r@ == strip_on_attrs_from(t@, 0),
{
    let len = t.unicode_len();
    let mut out = String::new();
    let mut i: usize = 0;
    while i < len
        invariant
            i <= len,
            len == t@.len(),
            strip_on_attrs_from(t@, 0) == out@ + strip_on_attrs_from(t@, i as int),
        decreases len - i,
    {
        let c = t.get_char(i);
        let mut is_attr = false;
        let mut eq_idx: usize = 0;
        if (c == 'o' || c == 'O') && len - i > 3 {
            let c1 = t.get_char(i + 1);
            if c1 == 'n' || c1 == 'N' {
                match find_char(t, i, '=') {
                    Some(e) => {
                        proof {
                            lemma_first_char_from(t@, i as int, '=');
                        }
                        is_attr = true;
                        eq_idx = e;
                    },
                    None => {},
                }
            }
        }
        proof {
            if is_attr {
                assert(on_attr_at(t@, i as int));
            } else {
                assert(!on_attr_at(t@, i as int));
            }
        }
        if is_attr {
            proof {
                lemma_on_attr_end(t@, i as int);
            }
            let after_eq = eq_idx + 1;
            let next: usize;
            if after_eq < len {
                let q = t.get_char(after_eq);
                if q == '"' || q == '\'' {
                    match find_char(t, after_eq + 1, q) {
                        Some(k) => {
                            proof {
                                lemma_first_char_from(t@, after_eq + 1, q);
                            }
                            next = if k + 1 < len {
                                k + 1
                            } else {
                                len
                            };
                        },
                        None => {
                            next = len;
                        },
                    }
                } else {
                    next = find_space_gt(t, after_eq);
                }
            } else {
                next = find_space_gt(t, after_eq);
            }
            proof {
                assert(next as int == on_attr_end(t@, i as int));
                assert(strip_on_attrs_from(t@, i as int) == strip_on_attrs_from(t@, next as int));
            }
            i = next;
        } else {
            push_char(&mut out, c);
            i = i + 1;
            proof {
                assert(strip_on_attrs_from(t@, 0) =~= out@ + strip_on_attrs_from(t@, i as int));
            }
        }
    }
    proof {
        assert(out@ =~= strip_on_attrs_from(t@, 0));
    }
    out
}

/// Sanitise HTML: remove `<script>...</script>` blocks, then inline
/// `on*=` event-handler attributes. Fails only for empty input.
pub fn sanitize_html(input: &str) -> (r: Result<String, DomError>)
    ensures
        input@.len() == 0 ==> r == Err::<String, _>(DomError::Invalid),
        input@.len() > 0 ==> (r matches Ok(out) && out@ == strip_on_attrs_from(
            strip_scripts_from(input@, 0),
            0,
        )),
{
    if input.unicode_len() == 0 {
        return Err(DomError::Invalid);
    }
    let stripped = strip_scripts(input);
    let cleaned = strip_on_attrs(stripped.as_str());
    Ok(cleaned)
}

} // verus!
