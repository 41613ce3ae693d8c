//! User-script registry: registration, removal, and selection of the
//! scripts to inject into a page.

use vstd::prelude::*;

use crate::download::scheme_len;
use crate::text::{contains_seq, first_char_from, str_contains, str_starts_with};

verus! {

/// When a script runs relative to document loading.
#[derive(Debug, Clone, Copy, PartialEq, Eq, PartialOrd, Ord, Structural)]
pub enum RunAt {
    /// Before the document starts loading.
    DocumentStart,
    /// After the document finished loading.
    DocumentEnd,
}

/// The JavaScript world a script runs in.
#[derive(Debug, Clone, Copy, PartialEq, Eq, Structural)]
pub enum World {
    /// The page's own world.
    Main,
    /// An isolated world.
    Isolated,
}

/// One registered user script.
#[derive(Debug)]
pub struct UserScript {
    /// Identifier assigned at registration.
    pub id: u64,
    /// Match rule: a URL prefix or a host substring.
    pub pattern: String,
    /// When the script runs.
    pub run_at: RunAt,
    /// The world the script runs in.
    pub world: World,
    /// The script source.
    pub code: String,
}

impl Clone for UserScript {
    fn clone(&self) -> (r: Self)
        ensures
            r == *self,
    {
        UserScript {
            id: self.id,
            pattern: self.pattern.clone(),
            run_at: self.run_at,
            world: self.world,
            code: self.code.clone(),
        }
    }
}

/// The host part of a URL: what stands between `://` and the next `/`,
/// or nothing when the URL has no scheme separator.
pub open spec fn host_of(u: Seq<char>) -> Seq<char> {
    if scheme_len(u) + 3 <= u.len() {
        let s = scheme_len(u) + 3;
        match first_char_from(u, s as int, '/') {
            Some(e) => u.subrange(s as int, e),
            None => u.subrange(s as int, u.len() as int),
        }
    } else {
        Seq::empty()
    }
}

/// Extract the host of a URL, as [`host_of`] describes.
pub fn extract_host(url: &str) -> (r: String)
    ensures
        r@ == host_of(url@),
{
    let len = url.unicode_len();
    let scheme = match crate::download::parse_scheme(url) {
        Some(s) => s,
        None => {
            proof {
                assert(false);
            }
            url
        },
    };
    let pos = scheme.unicode_len();
    if pos >= len || len - pos < 3 {
        proof {
            crate::download::lemma_scheme_len_bound(url@);
            assert(host_of(url@) =~= Seq::<char>::empty());
        }
        return String::new();
    }
    let start = pos + 3;
    proof {
        crate::download::lemma_scheme_len_bound(url@);
        assert(pos as int == scheme_len(url@));
        assert(scheme_len(url@) + 3 <= url@.len());
        crate::text::lemma_first_char_from(url@, start as int, '/');
    }
    let host = match crate::text::find_char(url, start, '/') {
        Some(e) => url.substring_char(start, e),
        None => url.substring_char(start, len),
    };
    proof {
        assert(host@ == host_of(url@));
    }
    host.to_owned()
}

/// Whether a script is selected for `url` (with host `host`) at stage
/// `run_at`: the stage must match and the pattern must be a prefix of
/// the URL or, for a non-empty host, a substring of it.
pub open spec fn script_matches(
    sc: UserScript,
    url: Seq<char>,
    host: Seq<char>,
    run_at: RunAt,
) -> bool {
    &&& sc.run_at == run_at
    &&& {
        ||| (sc.pattern@.len() <= url.len() && url.subrange(0, sc.pattern@.len() as int)
            == sc.pattern@)
        ||| (host.len() > 0 && contains_seq(host, sc.pattern@))
    }
}

/// The scripts of `s` selected for `(url, host, run_at)`, in stored
/// order.
pub open spec fn selected_scripts(
    s: Seq<UserScript>,
    url: Seq<char>,
    host: Seq<char>,
    run_at: RunAt,
) -> Seq<UserScript>
    decreases s.len(),
{
    if s.len() == 0 {
        s
    } else if script_matches(s.last(), url, host, run_at) {
        selected_scripts(s.drop_last(), url, host, run_at).push(s.last())
    } else {
        selected_scripts(s.drop_last(), url, host, run_at)
    }
}

/// `s` without the scripts of identifier `id`.
pub open spec fn without_script(s: Seq<UserScript>, id: u64) -> Seq<UserScript>
    decreases s.len(),
{
    if s.len() == 0 {
        s
    } else if s.last().id == id {
        without_script(s.drop_last(), id)
    } else {
        without_script(s.drop_last(), id).push(s.last())
    }
}

/// A script with identifier `id` exists in `s`.
pub open spec fn has_script(s: Seq<UserScript>, id: u64) -> bool {
    exists|i: int| 0 <= i < s.len() && (#[trigger] s[i]).id == id
}

/// Registry of user scripts. Scripts are stored in registration order;
/// identifiers count up from 1 and skip 0 when the counter wraps.
#[derive(Debug)]
pub struct UserScriptRegistry {
    next_id: u64,
    scripts: Vec<UserScript>,
}

impl UserScriptRegistry {
    /// The registered scripts, oldest first.
    pub closed spec fn scripts_seq(&self) -> Seq<UserScript> {
        self.scripts@
    }

    /// The registration counter.
    pub closed spec fn counter(&self) -> u64 {
        self.next_id
    }

    /// An empty registry.
    pub fn new() -> (r: UserScriptRegistry)
        ensures
            r.scripts_seq().len() == 0,
            r.counter() == 0,
    {
        UserScriptRegistry { next_id: 0, scripts: Vec::new() }
    }

    /// Register a script and return its identifier: the advanced
    /// counter, or 1 when the counter wrapped to 0.
    pub fn register(&mut self, pattern: &str, run_at: RunAt, world: World, code: &str) -> (r: u64)
        ensures
            final(self).counter() == (if old(self).counter() < u64::MAX {
                old(self).counter() + 1
            } else {
                0
            }),
            r == (if final(self).counter() == 0 {
                1
            } else {
                final(self).counter()
            }),
            final(self).scripts_seq().drop_last() == old(self).scripts_seq(),
            final(self).scripts_seq().len() == old(self).scripts_seq().len() + 1,
            ({
                let sc = final(self).scripts_seq().last();
                sc.id == r && sc.pattern@ == pattern@ && sc.run_at == run_at && sc.world == world
                    && sc.code@ == code@
            }),
    {
        self.next_id = self.next_id.wrapping_add(1);
        let id = if self.next_id == 0 {
            1
        } else {
            self.next_id
        };
        self.scripts.push(
            UserScript {
                id,
                pattern: pattern.to_owned(),
                run_at,
                world,
                code: code.to_owned(),
            },
        );
        proof {
            assert(self.scripts_seq().drop_last() =~= old(self).scripts_seq());
        }
        id
    }

    /// Remove the script of identifier `id`; reports whether one was
    /// registered.
    #[verifier::loop_isolation(false)]
    pub fn remove(&mut self, id: u64) -> (r: bool)
        ensures
            r == has_script(old(self).scripts_seq(), id),
            final(self).scripts_seq() == without_script(old(self).scripts_seq(), id),
            final(self).counter() == old(self).counter(),
    {
        let n = self.scripts.len();
        let mut out: Vec<UserScript> = Vec::new();
        let mut found = false;
        for i in 0..n
            invariant
                out@ == without_script(self.scripts@.take(i as int), id),
                found == (exists|w: int| 0 <= w < i && (#[trigger] self.scripts@[w]).id == id),
        {
            let sc = &self.scripts[i];
            proof {
                assert(self.scripts@.take(i + 1).last() == self.scripts@[i as int]);
                assert(self.scripts@.take(i + 1).drop_last() =~= self.scripts@.take(i as int));
            }
            if sc.id == id {
                found = true;
                proof {
                    assert((self.scripts@[i as int]).id == id);
                }
            } else {
                out.push(sc.clone());
            }
        }
        proof {
            assert(self.scripts@.take(n as int) =~= self.scripts@);
        }
        self.scripts = out;
        found
    }

    /// The scripts selected for `url` at stage `run_at`, in stored
    /// order: those whose pattern is a prefix of the URL or a substring
    /// of its non-empty host.
    #[verifier::loop_isolation(false)]
    pub fn scripts_for_url(&self, url: &str, run_at: RunAt) -> (r: Vec<UserScript>)
        ensures
            r@ == selected_scripts(self.scripts_seq(), url@, host_of(url@), run_at),
    {
        let host = extract_host(url);
        let n = self.scripts.len();
        let mut out: Vec<UserScript> = Vec::new();
        for i in 0..n
            invariant
                out@ == selected_scripts(self.scripts@.take(i as int), url@, host_of(url@), run_at),
        {
            let sc = &self.scripts[i];
            proof {
                assert(self.scripts@.take(i + 1).last() == self.scripts@[i as int]);
                assert(self.scripts@.take(i + 1).drop_last() =~= self.scripts@.take(i as int));
            }
            let selected = sc.run_at == run_at && (str_starts_with(url, sc.pattern.as_str()) || (
            host.as_str().unicode_len() > 0 && str_contains(host.as_str(), sc.pattern.as_str())));
            if selected {
                out.push(sc.clone());
            }
        }
        proof {
            assert(self.scripts@.take(n as int) =~= self.scripts@);
        }
        out
    }

    /// Number of registered scripts.
    pub fn len(&self) -> (r: usize)
        ensures
            r == self.scripts_seq().len(),
    {
        self.scripts.len()
    }
}

} // verus!
