//! Naming rules for printed documents. The document itself is written
//! by the process edge; the name it is written under is decided here.

use vstd::prelude::*;

use crate::text::{is_match_at, match_at, push_char};

verus! {

/// `s` ends with the `.pdf` suffix.
pub open spec fn ends_with_pdf(s: Seq<char>) -> bool {
    s.len() >= 4 && s.subrange(s.len() - 4, s.len() as int) == ".pdf"@
}

/// Path separators replaced by underscores.
pub open spec fn separators_replaced(s: Seq<char>) -> Seq<char> {
    s.map(
        |i: int, c: char|
            if c == '/' || c == '\\' {
                '_'
            } else {
                c
            },
    )
}

/// Turn a caller-supplied name hint into a safe file name: path
/// separators become underscores and a `.pdf` suffix is appended when
/// missing.
pub fn sanitize_filename(name: &str) -> (r: String)
    ensures
        ends_with_pdf(separators_replaced(name@)) ==> r@ == separators_replaced(name@),
        !ends_with_pdf(separators_replaced(name@)) ==> r@ == separators_replaced(name@) + ".pdf"@,
{
    let len = name.unicode_len();
    let mut out = String::new();
    for i in 0..len
        invariant
            len == name@.len(),
            out@ == separators_replaced(name@).take(i as int),
    {
        let c = name.get_char(i);
        let rc = if c == '/' || c == '\\' {
            '_'
        } else {
            c
        };
        push_char(&mut out, rc);
        proof {
            assert(out@ =~= separators_replaced(name@).take(i + 1));
        }
    }
    proof {
        assert(out@ =~= separators_replaced(name@));
    }
    let has_suffix = if out.as_str().unicode_len() >= 4 {
        let l = out.as_str().unicode_len();
        is_match_at(out.as_str(), ".pdf", l - 4)
    } else {
        false
    };
    proof {
        reveal_strlit(".pdf");
        let s = out@;
        if has_suffix {
            assert(match_at(s, ".pdf"@, s.len() - 4));
            assert(s.subrange(s.len() - 4, s.len() as int) =~= ".pdf"@);
        } else if s.len() >= 4 && s.subrange(s.len() - 4, s.len() as int) == ".pdf"@ {
            assert forall|j: int| 0 <= j < ".pdf"@.len() implies s[s.len() - 4 + j]
                == ".pdf"@[j] by {
                assert(s.subrange(s.len() - 4, s.len() as int)[j] == s[s.len() - 4 + j]);
            }
            assert(match_at(s, ".pdf"@, s.len() - 4));
        }
    }
    if !has_suffix {
        out.append(".pdf");
    }
    out
}

} // verus!
