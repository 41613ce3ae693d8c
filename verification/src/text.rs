//! Character and string helpers shared by the text-processing modules:
//! ASCII case folding, prefix tests, and substring search, all specified
//! over `Seq<char>` views.

use vstd::prelude::*;

verus! {

/// ASCII lower-casing of a single character; other characters are kept.
pub open spec fn lower_char(c: char) -> char {
    if 'A' <= c && c <= 'Z' {
        (((c as u32) + 32) as u8) as char
    } else {
        c
    }
}

/// Executable ASCII lower-casing of one character.
pub fn lower(c: char) -> (r: char)
    ensures
        r == lower_char(c),
{
    if 'A' <= c && c <= 'Z' {
        (((c as u32) + 32) as u8) as char
    } else {
        c
    }
}

/// The pattern `pat` occurs in `s` at position `i` (exact match).
pub open spec fn match_at(s: Seq<char>, pat: Seq<char>, i: int) -> bool {
    0 <= i && i + pat.len() <= s.len() && forall|j: int|
        0 <= j < pat.len() ==> s[i + j] == pat[j]
}

/// The pattern `pat` (given lower-case) occurs in `s` at position `i`,
/// comparing ASCII-case-insensitively.
pub open spec fn match_ci_at(s: Seq<char>, pat: Seq<char>, i: int) -> bool {
    0 <= i && i + pat.len() <= s.len() && forall|j: int|
        0 <= j < pat.len() ==> lower_char(s[i + j]) == pat[j]
}

/// `pat` occurs somewhere in `s`.
pub open spec fn contains_seq(s: Seq<char>, pat: Seq<char>) -> bool {
    exists|i: int| match_at(s, pat, i)
}

/// `pat` (given lower-case) occurs somewhere in `s`, case-insensitively.
pub open spec fn contains_ci_seq(s: Seq<char>, pat: Seq<char>) -> bool {
    exists|i: int| match_ci_at(s, pat, i)
}

/// Whether `pat` matches `s` exactly at position `i`.
pub fn is_match_at(s: &str, pat: &str, i: usize) -> (r: bool)
    requires
        i <= s@.len(),
    ensures
        r == match_at(s@, pat@, i as int),
{
    let s_len = s.unicode_len();
    let p_len = pat.unicode_len();
    if p_len > s_len - i {
        return false;
    }
    for j in 0..p_len
        invariant
            i + p_len <= s_len,
            s_len == s@.len(),
            p_len == pat@.len(),
            forall|k: int| 0 <= k < j ==> s@[i + k] == pat@[k],
    {
        if s.get_char(i + j) != pat.get_char(j) {
            return false;
        }
    }
    true
}

/// Whether `pat` (lower-case) matches `s` at position `i`, ignoring ASCII case.
pub fn is_match_ci_at(s: &str, pat: &str, i: usize) -> (r: bool)
    requires
        i <= s@.len(),
    ensures
        r == match_ci_at(s@, pat@, i as int),
{
    let s_len = s.unicode_len();
    let p_len = pat.unicode_len();
    if p_len > s_len - i {
        return false;
    }
    for j in 0..p_len
        invariant
            i + p_len <= s_len,
            s_len == s@.len(),
            p_len == pat@.len(),
            forall|k: int| 0 <= k < j ==> lower_char(s@[i + k]) == pat@[k],
    {
        if lower(s.get_char(i + j)) != pat.get_char(j) {
            return false;
        }
    }
    true
}

/// First position at or after `from` where `pat` matches `s` exactly.
pub fn find_at(s: &str, pat: &str, from: usize) -> (r: Option<usize>)
    requires
        from <= s@.len(),
    ensures
        match r {
            Some(i) => from <= i && match_at(s@, pat@, i as int) && forall|k: int|
                from <= k < i ==> !match_at(s@, pat@, k),
            None => forall|k: int| from <= k ==> !match_at(s@, pat@, k),
        },
{
    if pat.unicode_len() == 0 {
        return Some(from);
    }
    let s_len = s.unicode_len();
    let mut i = from;
    while i < s_len
        invariant
            from <= i <= s_len,
            s_len == s@.len(),
            pat@.len() >= 1,
            forall|k: int| from <= k < i ==> !match_at(s@, pat@, k),
        decreases s_len - i,
    {
        if is_match_at(s, pat, i) {
            return Some(i);
        }
        i = i + 1;
    }
    None
}

/// First position at or after `from` where `pat` (lower-case) matches `s`
/// ignoring ASCII case.
pub fn find_ci_at(s: &str, pat: &str, from: usize) -> (r: Option<usize>)
    requires
        from <= s@.len(),
    ensures
        match r {
            Some(i) => from <= i && match_ci_at(s@, pat@, i as int) && forall|k: int|
                from <= k < i ==> !match_ci_at(s@, pat@, k),
            None => forall|k: int| from <= k ==> !match_ci_at(s@, pat@, k),
        },
{
    if pat.unicode_len() == 0 {
        return Some(from);
    }
    let s_len = s.unicode_len();
    let mut i = from;
    while i < s_len
        invariant
            from <= i <= s_len,
            s_len == s@.len(),
            pat@.len() >= 1,
            forall|k: int| from <= k < i ==> !match_ci_at(s@, pat@, k),
        decreases s_len - i,
    {
        if is_match_ci_at(s, pat, i) {
            return Some(i);
        }
        i = i + 1;
    }
    None
}

/// Position of the first ASCII-case-insensitive match of `pat` (given
/// lower-case) in `s` at or after `from`, if any.
pub open spec fn first_ci_from(s: Seq<char>, pat: Seq<char>, from: int) -> Option<int>
    decreases s.len() - from,
{
    if from < 0 || from + pat.len() > s.len() {
        None
    } else if match_ci_at(s, pat, from) {
        Some(from)
    } else {
        first_ci_from(s, pat, from + 1)
    }
}

/// The defining properties of [`first_ci_from`]: it is the first match
/// position at or after `from`, and `None` means no match follows.
pub proof fn lemma_first_ci_from(s: Seq<char>, pat: Seq<char>, from: int)
    requires
        0 <= from <= s.len(),
    ensures
        match first_ci_from(s, pat, from) {
            Some(i) => from <= i && match_ci_at(s, pat, i) && forall|k: int|
                from <= k < i ==> !match_ci_at(s, pat, k),
            None => forall|k: int| from <= k ==> !match_ci_at(s, pat, k),
        },
    decreases s.len() - from,
{
    if from + pat.len() > s.len() {
    } else if match_ci_at(s, pat, from) {
    } else {
        lemma_first_ci_from(s, pat, from + 1);
    }
}

/// First position at or after `from` where `pat` (lower-case) matches
/// `s` ignoring ASCII case, agreeing with [`first_ci_from`].
pub fn find_ci(s: &str, pat: &str, from: usize) -> (r: Option<usize>)
    requires
        from <= s@.len(),
    ensures
        match r {
            Some(i) => first_ci_from(s@, pat@, from as int) == Some(i as int),
            None => first_ci_from(s@, pat@, from as int) is None,
        },
{
    let r = find_ci_at(s, pat, from);
    proof {
        lemma_first_ci_from(s@, pat@, from as int);
        match r {
            Some(i) => {
                match first_ci_from(s@, pat@, from as int) {
                    Some(j) => {
                        if j < i {
                            assert(!match_ci_at(s@, pat@, j));
                        }
                        if i < j {
                            assert(!match_ci_at(s@, pat@, i as int));
                        }
                    },
                    None => {
                        assert(!match_ci_at(s@, pat@, i as int));
                    },
                }
            },
            None => {
                match first_ci_from(s@, pat@, from as int) {
                    Some(j) => {
                        assert(!match_ci_at(s@, pat@, j));
                    },
                    None => {},
                }
            },
        }
    }
    r
}

/// Position of the first occurrence of the character `c` in `s` at or
/// after `from`, if any.
pub open spec fn first_char_from(s: Seq<char>, from: int, c: char) -> Option<int>
    decreases s.len() - from,
{
    if from < 0 || from >= s.len() {
        None
    } else if s[from] == c {
        Some(from)
    } else {
        first_char_from(s, from + 1, c)
    }
}

/// The defining properties of [`first_char_from`].
pub proof fn lemma_first_char_from(s: Seq<char>, from: int, c: char)
    requires
        0 <= from,
    ensures
        match first_char_from(s, from, c) {
            Some(i) => from <= i < s.len() && s[i] == c && forall|k: int|
                from <= k < i ==> s[k] != c,
            None => forall|k: int| from <= k < s.len() ==> s[k] != c,
        },
    decreases s.len() - from,
{
    if from >= s.len() {
    } else if s[from] == c {
    } else {
        lemma_first_char_from(s, from + 1, c);
    }
}

/// First occurrence of the character `c` at or after `from`, agreeing
/// with [`first_char_from`].
pub fn find_char(s: &str, from: usize, c: char) -> (r: Option<usize>)
    requires
        from <= s@.len(),
    ensures
        match r {
            Some(i) => first_char_from(s@, from as int, c) == Some(i as int),
            None => first_char_from(s@, from as int, c) is None,
        },
{
    proof {
        lemma_first_char_from(s@, from as int, c);
    }
    let len = s.unicode_len();
    let mut i = from;
    while i < len
        invariant
            from <= i <= len,
            len == s@.len(),
            forall|k: int| from <= k < i ==> s@[k] != c,
        decreases len - i,
    {
        if s.get_char(i) == c {
            proof {
                lemma_first_char_from(s@, from as int, c);
                match first_char_from(s@, from as int, c) {
                    Some(j) => {
                        if j < i {
                            assert(s@[j] != c);
                        }
                        if j > i {
                            assert(s@[i as int] != c);
                        }
                    },
                    None => {
                        assert(s@[i as int] != c);
                    },
                }
            }
            return Some(i);
        }
        i = i + 1;
    }
    proof {
        lemma_first_char_from(s@, from as int, c);
        match first_char_from(s@, from as int, c) {
            Some(j) => {
                assert(s@[j] != c);
            },
            None => {},
        }
    }
    None
}

/// Position of the first space or `>` in `s` at or after `from`, or
/// the length of `s` when none follows.
pub open spec fn first_space_gt_from(s: Seq<char>, from: int) -> int
    decreases s.len() - from,
{
    if from < 0 || from >= s.len() {
        s.len() as int
    } else if s[from] == ' ' || s[from] == '>' {
        from
    } else {
        first_space_gt_from(s, from + 1)
    }
}

/// The defining properties of [`first_space_gt_from`].
pub proof fn lemma_first_space_gt_from(s: Seq<char>, from: int)
    requires
        0 <= from <= s.len(),
    ensures
        from <= first_space_gt_from(s, from) <= s.len(),
        first_space_gt_from(s, from) < s.len() ==> (s[first_space_gt_from(s, from)] == ' '
            || s[first_space_gt_from(s, from)] == '>'),
        forall|k: int|
            from <= k < first_space_gt_from(s, from) ==> s[k] != ' ' && s[k] != '>',
    decreases s.len() - from,
{
    if from >= s.len() {
    } else if s[from] == ' ' || s[from] == '>' {
    } else {
        lemma_first_space_gt_from(s, from + 1);
    }
}

/// First space or `>` at or after `from` (the length of `s` when none
/// follows), agreeing with [`first_space_gt_from`].
pub fn find_space_gt(s: &str, from: usize) -> (r: usize)
    requires
        from <= s@.len(),
    ensures
        r == first_space_gt_from(s@, from as int),
{
    proof {
        lemma_first_space_gt_from(s@, from as int);
    }
    let len = s.unicode_len();
    let mut i = from;
    while i < len
        invariant
            from <= i <= len,
            len == s@.len(),
            forall|k: int| from <= k < i ==> s@[k] != ' ' && s@[k] != '>',
        decreases len - i,
    {
        let c = s.get_char(i);
        if c == ' ' || c == '>' {
            proof {
                lemma_first_space_gt_from(s@, from as int);
                let f = first_space_gt_from(s@, from as int);
                if f < i {
                    assert(s@[f] != ' ' && s@[f] != '>');
                }
                if f > i {
                    assert(s@[i as int] != ' ' && s@[i as int] != '>');
                }
            }
            return i;
        }
        i = i + 1;
    }
    proof {
        lemma_first_space_gt_from(s@, from as int);
        let f = first_space_gt_from(s@, from as int);
        if f < len {
            assert(s@[f] != ' ' && s@[f] != '>');
        }
    }
    len
}

/// Exact substring test.
pub fn str_contains(s: &str, pat: &str) -> (r: bool)
    ensures
        r == contains_seq(s@, pat@),
{
    match find_at(s, pat, 0) {
        Some(_) => true,
        None => false,
    }
}

/// ASCII-case-insensitive substring test; `pat` must be given lower-case.
pub fn str_contains_ci(s: &str, pat: &str) -> (r: bool)
    ensures
        r == contains_ci_seq(s@, pat@),
{
    match find_ci_at(s, pat, 0) {
        Some(_) => true,
        None => false,
    }
}

/// An ASCII whitespace character: space, tab, line feed, form feed or
/// carriage return.
pub open spec fn is_space_char(c: char) -> bool {
    c == ' ' || c == '\t' || c == '\n' || c == '\u{0C}' || c == '\r'
}

/// Executable form of [`is_space_char`].
pub fn is_space(c: char) -> (r: bool)
    ensures
        r == is_space_char(c),
{
    c == ' ' || c == '\t' || c == '\n' || c == '\u{0C}' || c == '\r'
}

/// Whether every character of `s` is whitespace (also true of the
/// empty string).
pub fn all_spaces(s: &str) -> (r: bool)
    ensures
        r == forall|i: int| 0 <= i < s@.len() ==> is_space_char(s@[i]),
{
    let len = s.unicode_len();
    for i in 0..len
        invariant
            len == s@.len(),
            forall|k: int| 0 <= k < i ==> is_space_char(s@[k]),
    {
        if !is_space(s.get_char(i)) {
            return false;
        }
    }
    true
}

/// Position of the first non-whitespace character at or after `i`, or
/// the length of `s` when only whitespace follows.
pub open spec fn next_non_space(s: Seq<char>, i: int) -> int
    decreases s.len() - i,
{
    if i < 0 || i >= s.len() {
        i
    } else if is_space_char(s[i]) {
        next_non_space(s, i + 1)
    } else {
        i
    }
}

/// Position of the first whitespace character at or after `i`, or the
/// length of `s` when none follows.
pub open spec fn next_space(s: Seq<char>, i: int) -> int
    decreases s.len() - i,
{
    if i < 0 || i >= s.len() {
        i
    } else if is_space_char(s[i]) {
        i
    } else {
        next_space(s, i + 1)
    }
}

/// Bounds of [`next_non_space`] and [`next_space`].
pub proof fn lemma_next_scan(s: Seq<char>, i: int)
    requires
        0 <= i <= s.len(),
    ensures
        i <= next_non_space(s, i) <= s.len(),
        i <= next_space(s, i) <= s.len(),
        next_non_space(s, i) < s.len() ==> !is_space_char(s[next_non_space(s, i)]),
        next_space(s, i) < s.len() ==> is_space_char(s[next_space(s, i)]),
        next_space(s, i) > i || i >= s.len() || is_space_char(s[i]),
    decreases s.len() - i,
{
    if i < s.len() {
        lemma_next_scan(s, i + 1);
    }
}

/// One past the last non-whitespace character of `s` (0 when `s` is
/// all whitespace).
pub open spec fn trim_end_idx(s: Seq<char>) -> int
    decreases s.len(),
{
    if s.len() == 0 {
        0
    } else if is_space_char(s.last()) {
        trim_end_idx(s.drop_last())
    } else {
        s.len() as int
    }
}

/// `s` with leading and trailing whitespace removed.
pub open spec fn trim_spec(s: Seq<char>) -> Seq<char> {
    if next_non_space(s, 0) >= trim_end_idx(s) {
        Seq::empty()
    } else {
        s.subrange(next_non_space(s, 0), trim_end_idx(s))
    }
}

/// Strip leading and trailing whitespace.
pub fn trim_str<'a>(s: &'a str) -> (r: &'a str)
    ensures
        r@ == trim_spec(s@),
{
    let len = s.unicode_len();
    proof {
        assert(s@.take(len as int) =~= s@);
    }
    let mut j = len;
    while j > 0 && is_space(s.get_char(j - 1))
        invariant
            j <= len,
            len == s@.len(),
            trim_end_idx(s@) == trim_end_idx(s@.take(j as int)),
        decreases j,
    {
        proof {
            assert(s@.take(j as int).last() == s@[j - 1]);
            assert(s@.take(j as int).drop_last() =~= s@.take(j - 1));
        }
        j = j - 1;
    }
    proof {
        if j > 0 {
            assert(s@.take(j as int).last() == s@[j - 1]);
        }
        assert(trim_end_idx(s@) == j);
    }
    let mut a: usize = 0;
    while a < j && is_space(s.get_char(a))
        invariant
            a <= j <= len,
            len == s@.len(),
            next_non_space(s@, 0) == next_non_space(s@, a as int),
            j == trim_end_idx(s@),
        decreases j - a,
    {
        a = a + 1;
    }
    proof {
        lemma_next_scan(s@, a as int);
    }
    if a >= j {
        let empty = s.substring_char(0, 0);
        proof {
            assert(next_non_space(s@, 0) >= trim_end_idx(s@));
            assert(empty@ =~= trim_spec(s@));
        }
        empty
    } else {
        proof {
            assert(next_non_space(s@, a as int) == a);
        }
        s.substring_char(a, j)
    }
}

/// Relies on String::push: appends exactly one character at the end.
#[verifier::external_body]
pub(crate) fn push_char(s: &mut String, c: char)
    ensures
        final(s)@ == old(s)@.push(c),
{
    s.push(c);
}

/// ASCII lower-casing of a whole sequence.
pub open spec fn lower_seq(s: Seq<char>) -> Seq<char> {
    s.map(|i: int, c: char| lower_char(c))
}

/// ASCII lower-casing of a whole string.
#[verifier::loop_isolation(false)]
pub fn lower_string(s: &str) -> (r: String)
    ensures
        r@ == lower_seq(s@),
{
    let len = s.unicode_len();
    let mut out = String::new();
    for i in 0..len
        invariant
            out@ == lower_seq(s@).take(i as int),
    {
        push_char(&mut out, lower(s.get_char(i)));
        proof {
            assert(out@ =~= lower_seq(s@).take(i + 1));
        }
    }
    proof {
        assert(out@ =~= lower_seq(s@));
    }
    out
}

/// Exact string equality over the character views.
pub fn str_eq(a: &str, b: &str) -> (r: bool)
    ensures
        r == (a@ == b@),
{
    let a_len = a.unicode_len();
    let b_len = b.unicode_len();
    if a_len != b_len {
        return false;
    }
    for i in 0..a_len
        invariant
            a_len == a@.len(),
            a@.len() == b@.len(),
            forall|k: int| 0 <= k < i ==> a@[k] == b@[k],
    {
        if a.get_char(i) != b.get_char(i) {
            return false;
        }
    }
    proof {
        assert(a@ =~= b@);
    }
    true
}

/// Prefix test over the character views.
pub fn str_starts_with(s: &str, prefix: &str) -> (r: bool)
    ensures
        r == (prefix@.len() <= s@.len() && s@.subrange(0, prefix@.len() as int) == prefix@),
{
    let p_len = prefix.unicode_len();
    if p_len > s.unicode_len() {
        return false;
    }
    let m = is_match_at(s, prefix, 0);
    proof {
        if m {
            assert(s@.subrange(0, prefix@.len() as int) =~= prefix@);
        } else {
            if s@.subrange(0, prefix@.len() as int) == prefix@ {
                assert(forall|j: int|
                    0 <= j < prefix@.len() ==> s@[j] == s@.subrange(
                        0,
                        prefix@.len() as int,
                    )[j]);
                assert(match_at(s@, prefix@, 0));
            }
        }
    }
    m
}

} // verus!
