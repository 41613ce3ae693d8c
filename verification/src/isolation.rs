//! Site isolation: derive a site key from a URL and assign renderer
//! processes per site, reusing the least-busy process once the process
//! cap is reached.

use vstd::prelude::*;

use crate::download::{lemma_scheme_len_bound, parse_scheme, scheme_len};
use crate::text::{
    find_char, first_char_from, lemma_first_char_from, lower_seq, lower_string, str_eq, trim_spec,
    trim_str,
};

verus! {

/// Identifier of a renderer process.
pub type ProcessId = u32;

/// The isolation key of a site: scheme, host and port.
#[derive(Debug, PartialEq, Eq, Hash)]
pub struct SiteKey {
    /// Lower-cased scheme.
    pub scheme: String,
    /// Lower-cased host.
    pub host: String,
    /// Port, explicit or the scheme's default.
    pub port: u16,
}

impl Clone for SiteKey {
    fn clone(&self) -> (r: Self)
        ensures
            r == *self,
    {
        SiteKey { scheme: self.scheme.clone(), host: self.host.clone(), port: self.port }
    }
}

/// Every character is an ASCII digit.
pub open spec fn all_digits(s: Seq<char>) -> bool {
    forall|i: int| 0 <= i < s.len() ==> '0' <= #[trigger] s[i] && s[i] <= '9'
}

/// Numeric value of a digit sequence.
pub open spec fn digits_value(s: Seq<char>) -> int
    decreases s.len(),
{
    if s.len() == 0 {
        0
    } else {
        10 * digits_value(s.drop_last()) + (s.last() as int - '0' as int)
    }
}

/// What parsing a port string yields: a value for a non-empty digit
/// string that fits 16 bits, nothing otherwise.
pub open spec fn parsed_port(s: Seq<char>) -> Option<u16> {
    if s.len() == 0 || !all_digits(s) || digits_value(s) > 65535 {
        None
    } else {
        Some(digits_value(s) as u16)
    }
}

/// Index of the last `:` in `s`, or `-1` when none occurs.
pub open spec fn last_colon(s: Seq<char>) -> int
    decreases s.len(),
{
    if s.len() == 0 {
        -1
    } else if s.last() == ':' {
        s.len() - 1
    } else {
        last_colon(s.drop_last())
    }
}

proof fn lemma_last_colon_pin(s: Seq<char>, i: int)
    requires
        0 <= i < s.len(),
        s[i] == ':',
        forall|k: int| i < k < s.len() ==> s[k] != ':',
    ensures
        last_colon(s) == i,
    decreases s.len(),
{
    if i == s.len() - 1 {
    } else {
        assert(s[s.len() - 1] != ':');
        let q = s.drop_last();
        assert(forall|k: int| 0 <= k < q.len() ==> q[k] == s[k]);
        lemma_last_colon_pin(q, i);
    }
}

proof fn lemma_last_colon_none(s: Seq<char>)
    requires
        forall|k: int| 0 <= k < s.len() ==> s[k] != ':',
    ensures
        last_colon(s) == -1,
    decreases s.len(),
{
    if s.len() > 0 {
        let q = s.drop_last();
        assert(forall|k: int| 0 <= k < q.len() ==> q[k] == s[k]);
        lemma_last_colon_none(q);
    }
}

/// The parts a URL resolves to: `(scheme, host, port)`, scheme and
/// host lower-cased, or nothing when scheme or host is missing.
pub open spec fn parse_site(u: Seq<char>) -> Option<(Seq<char>, Seq<char>, u16)> {
    let t = trim_spec(u);
    let has_sep = scheme_len(t) + 3 <= t.len();
    let scheme = if has_sep {
        t.take(scheme_len(t) as int)
    } else {
        Seq::empty()
    };
    let rest = if has_sep {
        t.skip((scheme_len(t) + 3) as int)
    } else {
        t
    };
    let hp_end = match first_char_from(rest, 0, '/') {
        Some(e) => e,
        None => rest.len() as int,
    };
    let host_port = rest.take(hp_end);
    let default_port: u16 = if scheme == "http"@ {
        80
    } else if scheme == "https"@ {
        443
    } else {
        0
    };
    let lc = last_colon(host_port);
    let host = if lc >= 0 && all_digits(host_port.skip(lc + 1)) {
        host_port.take(lc)
    } else {
        host_port
    };
    let port = if lc >= 0 && all_digits(host_port.skip(lc + 1)) {
        match parsed_port(host_port.skip(lc + 1)) {
            Some(p) => p,
            None => default_port,
        }
    } else {
        default_port
    };
    if scheme.len() == 0 || host.len() == 0 {
        None
    } else {
        Some((lower_seq(scheme), lower_seq(host), port))
    }
}

/// Parse a port string: digits only, value at most 65535.
#[verifier::loop_isolation(false)]
fn parse_port_digits(s: &str) -> (r: Option<u16>)
    ensures
        r == parsed_port(s@),
{
    let len = s.unicode_len();
    if len == 0 {
        return None;
    }
    for i in 0..len
        invariant
            forall|k: int| 0 <= k < i ==> '0' <= #[trigger] s@[k] && s@[k] <= '9',
    {
        let c = s.get_char(i);
        if !('0' <= c && c <= '9') {
            return None;
        }
    }
    let mut acc: u32 = 0;
    for i in 0..len
        invariant
            acc == (if digits_value(s@.take(i as int)) > 65535 {
                65536int
            } else {
                digits_value(s@.take(i as int))
            }),
            all_digits(s@),
    {
        let c = s.get_char(i);
        let d = (c as u32) - ('0' as u32);
        proof {
            assert(s@.take(i + 1).last() == s@[i as int]);
            assert(s@.take(i + 1).drop_last() =~= s@.take(i as int));
        }
        if acc > 65535 {
            acc = 65536;
        } else {
            acc = acc * 10 + d;
            if acc > 65535 {
                acc = 65536;
            }
        }
    }
    proof {
        assert(s@.take(len as int) =~= s@);
    }
    if acc > 65535 {
        None
    } else {
        Some(acc as u16)
    }
}

impl SiteKey {
    /// Parse a URL into its site key, as [`parse_site`] describes:
    /// trim, split the scheme at `://`, keep the part before the first
    /// `/`, and split off a trailing all-digit port. Fails when scheme
    /// or host is missing.
    #[verifier::loop_isolation(false)]
    pub fn parse(url: &str) -> (r: Option<SiteKey>)
        ensures
            parse_site(url@) is None ==> r is None,
            parse_site(url@) matches Some((scheme, host, port)) ==> (r matches Some(k)
                && k.scheme@ == scheme && k.host@ == host && k.port == port),
    {
        let t = trim_str(url);
        let tlen = t.unicode_len();
        let scheme_str = match parse_scheme(t) {
            Some(s) => s,
            None => {
                proof {
                    assert(false);
                }
                t
            },
        };
        proof {
            lemma_scheme_len_bound(t@);
        }
        let pos = scheme_str.unicode_len();
        let has_sep = pos < tlen && tlen - pos >= 3;
        let rest = if has_sep {
            t.substring_char(pos + 3, tlen)
        } else {
            t
        };
        proof {
            if has_sep {
                assert(rest@ =~= t@.skip((scheme_len(t@) + 3) as int));
            }
            lemma_first_char_from(rest@, 0, '/');
        }
        let rlen = rest.unicode_len();
        let hp_end = match find_char(rest, 0, '/') {
            Some(e) => e,
            None => rlen,
        };
        let host_port = rest.substring_char(0, hp_end);
        proof {
            assert(host_port@ =~= rest@.take(hp_end as int));
        }
        let scheme_for_default = if has_sep {
            scheme_str
        } else {
            t.substring_char(0, 0)
        };
        proof {
            if !has_sep {
                assert(scheme_for_default@ =~= Seq::<char>::empty());
            }
        }
        let default_port: u16 = if str_eq(scheme_for_default, "http") {
            80
        } else if str_eq(scheme_for_default, "https") {
            443
        } else {
            0
        };
        let hplen = host_port.unicode_len();
        let mut j = hplen;
        while j > 0 && host_port.get_char(j - 1) != ':'
            invariant
                j <= hplen,
                hplen == host_port@.len(),
                forall|k: int| j <= k < host_port@.len() ==> host_port@[k] != ':',
            decreases j,
        {
            j = j - 1;
        }
        let mut host_end = hplen;
        let mut port = default_port;
        if j > 0 {
            proof {
                lemma_last_colon_pin(host_port@, j - 1);
            }
            let digits = host_port.substring_char(j, hplen);
            proof {
                assert(digits@ =~= host_port@.skip(j as int));
            }
            if digits_all_numeric(digits) {
                host_end = j - 1;
                port = match parse_port_digits(digits) {
                    Some(p) => p,
                    None => default_port,
                };
            }
        } else {
            proof {
                lemma_last_colon_none(host_port@);
            }
        }
        let host = host_port.substring_char(0, host_end);
        proof {
            if host_end < hplen {
                assert(host@ =~= host_port@.take(j - 1));
            } else {
                assert(host@ =~= host_port@);
            }
        }
        if scheme_for_default.unicode_len() == 0 || host.unicode_len() == 0 {
            return None;
        }
        Some(
            SiteKey {
                scheme: lower_string(scheme_for_default),
                host: lower_string(host),
                port,
            },
        )
    }
}

/// Every character is an ASCII digit, executable form.
fn digits_all_numeric(s: &str) -> (r: bool)
    ensures
        r == all_digits(s@),
{
    let len = s.unicode_len();
    for i in 0..len
        invariant
            len == s@.len(),
            forall|k: int| 0 <= k < i ==> '0' <= #[trigger] s@[k] && s@[k] <= '9',
    {
        let c = s.get_char(i);
        if !('0' <= c && c <= '9') {
            return false;
        }
    }
    true
}

/// One more than `v`, saturating at the counter's ceiling.
pub open spec fn bumped(v: u32) -> u32 {
    if v < u32::MAX {
        (v + 1) as u32
    } else {
        v
    }
}

/// The process mapped to `(scheme, host, port)`, scanning newest
/// entries first, if any.
pub open spec fn find_site(
    s: Seq<(SiteKey, ProcessId)>,
    scheme: Seq<char>,
    host: Seq<char>,
    port: u16,
) -> Option<ProcessId>
    decreases s.len(),
{
    if s.len() == 0 {
        None
    } else if s.last().0.scheme@ == scheme && s.last().0.host@ == host && s.last().0.port == port {
        Some(s.last().1)
    } else {
        find_site(s.drop_last(), scheme, host, port)
    }
}

/// The load recorded for `pid`, scanning newest entries first, if any.
pub open spec fn find_load(l: Seq<(ProcessId, u32)>, pid: ProcessId) -> Option<u32>
    decreases l.len(),
{
    if l.len() == 0 {
        None
    } else if l.last().0 == pid {
        Some(l.last().1)
    } else {
        find_load(l.drop_last(), pid)
    }
}

/// An entry for `pid` exists in `l`.
pub open spec fn has_load(l: Seq<(ProcessId, u32)>, pid: ProcessId) -> bool {
    exists|i: int| 0 <= i < l.len() && (#[trigger] l[i]).0 == pid
}

/// The newest entry of `pid` raised by one, saturating.
pub open spec fn bump_existing(l: Seq<(ProcessId, u32)>, pid: ProcessId) -> Seq<(ProcessId, u32)>
    decreases l.len(),
{
    if l.len() == 0 {
        l
    } else if l.last().0 == pid {
        l.drop_last().push((pid, bumped(l.last().1)))
    } else {
        bump_existing(l.drop_last(), pid).push(l.last())
    }
}

/// `l` with the load of `pid` raised by one (saturating), or a fresh
/// entry of load 1 appended when none exists.
pub open spec fn bump_load(l: Seq<(ProcessId, u32)>, pid: ProcessId) -> Seq<(ProcessId, u32)> {
    if has_load(l, pid) {
        bump_existing(l, pid)
    } else {
        l.push((pid, 1))
    }
}

/// The newest entry of `pid` lowered by one, stopping at zero.
pub open spec fn drop_existing(l: Seq<(ProcessId, u32)>, pid: ProcessId) -> Seq<(ProcessId, u32)>
    decreases l.len(),
{
    if l.len() == 0 {
        l
    } else if l.last().0 == pid {
        l.drop_last().push((pid, if l.last().1 > 0 { (l.last().1 - 1) as u32 } else { 0 }))
    } else {
        drop_existing(l.drop_last(), pid).push(l.last())
    }
}

/// `l` with the load of `pid` lowered by one, stopping at zero; `l`
/// itself when no entry exists.
pub open spec fn drop_load(l: Seq<(ProcessId, u32)>, pid: ProcessId) -> Seq<(ProcessId, u32)> {
    if has_load(l, pid) {
        drop_existing(l, pid)
    } else {
        l
    }
}

/// The earliest entry of `l` with the smallest load.
pub open spec fn min_load_entry(l: Seq<(ProcessId, u32)>) -> (ProcessId, u32)
    decreases l.len(),
{
    if l.len() <= 1 {
        l[0]
    } else {
        let m = min_load_entry(l.drop_last());
        if l.last().1 < m.1 {
            l.last()
        } else {
            m
        }
    }
}

proof fn lemma_bump_existing_at(l: Seq<(ProcessId, u32)>, pid: ProcessId, j: int)
    requires
        0 <= j < l.len(),
        l[j].0 == pid,
        forall|k: int| j < k < l.len() ==> (#[trigger] l[k]).0 != pid,
    ensures
        bump_existing(l, pid) == l.update(j, (pid, bumped(l[j].1))),
    decreases l.len(),
{
    if j == l.len() - 1 {
        assert(bump_existing(l, pid) =~= l.update(j, (pid, bumped(l[j].1))));
    } else {
        assert(l[l.len() - 1].0 != pid);
        let q = l.drop_last();
        assert(forall|k: int| 0 <= k < q.len() ==> q[k] == l[k]);
        lemma_bump_existing_at(q, pid, j);
        assert(bump_existing(l, pid) =~= l.update(j, (pid, bumped(l[j].1))));
    }
}

proof fn lemma_bump_load_at(l: Seq<(ProcessId, u32)>, pid: ProcessId, j: int)
    requires
        0 <= j < l.len(),
        l[j].0 == pid,
        forall|k: int| j < k < l.len() ==> (#[trigger] l[k]).0 != pid,
    ensures
        bump_load(l, pid) == l.update(j, (pid, bumped(l[j].1))),
{
    assert(has_load(l, pid));
    lemma_bump_existing_at(l, pid, j);
}

proof fn lemma_bump_load_missing(l: Seq<(ProcessId, u32)>, pid: ProcessId)
    requires
        forall|k: int| 0 <= k < l.len() ==> (#[trigger] l[k]).0 != pid,
    ensures
        bump_load(l, pid) == l.push((pid, 1)),
{
    assert(!has_load(l, pid));
}

proof fn lemma_drop_existing_at(l: Seq<(ProcessId, u32)>, pid: ProcessId, j: int)
    requires
        0 <= j < l.len(),
        l[j].0 == pid,
        forall|k: int| j < k < l.len() ==> (#[trigger] l[k]).0 != pid,
    ensures
        drop_existing(l, pid) == l.update(
            j,
            (pid, if l[j].1 > 0 { (l[j].1 - 1) as u32 } else { 0 }),
        ),
        find_load(l, pid) == Some(l[j].1),
    decreases l.len(),
{
    if j == l.len() - 1 {
        assert(drop_existing(l, pid) =~= l.update(
            j,
            (pid, if l[j].1 > 0 { (l[j].1 - 1) as u32 } else { 0 }),
        ));
    } else {
        assert(l[l.len() - 1].0 != pid);
        let q = l.drop_last();
        assert(forall|k: int| 0 <= k < q.len() ==> q[k] == l[k]);
        lemma_drop_existing_at(q, pid, j);
        assert(drop_existing(l, pid) =~= l.update(
            j,
            (pid, if l[j].1 > 0 { (l[j].1 - 1) as u32 } else { 0 }),
        ));
    }
}

proof fn lemma_drop_load_at(l: Seq<(ProcessId, u32)>, pid: ProcessId, j: int)
    requires
        0 <= j < l.len(),
        l[j].0 == pid,
        forall|k: int| j < k < l.len() ==> (#[trigger] l[k]).0 != pid,
    ensures
        drop_load(l, pid) == l.update(j, (pid, if l[j].1 > 0 { (l[j].1 - 1) as u32 } else { 0 })),
        find_load(l, pid) == Some(l[j].1),
{
    assert(has_load(l, pid));
    lemma_drop_existing_at(l, pid, j);
}

proof fn lemma_find_load_missing(l: Seq<(ProcessId, u32)>, pid: ProcessId)
    requires
        forall|k: int| 0 <= k < l.len() ==> (#[trigger] l[k]).0 != pid,
    ensures
        find_load(l, pid) is None,
    decreases l.len(),
{
    if l.len() > 0 {
        assert(l[l.len() - 1].0 != pid);
        let q = l.drop_last();
        assert(forall|k: int| 0 <= k < q.len() ==> q[k] == l[k]);
        lemma_find_load_missing(q, pid);
    }
}

proof fn lemma_drop_load_missing(l: Seq<(ProcessId, u32)>, pid: ProcessId)
    requires
        forall|k: int| 0 <= k < l.len() ==> (#[trigger] l[k]).0 != pid,
    ensures
        drop_load(l, pid) == l,
        find_load(l, pid) is None,
{
    assert(!has_load(l, pid));
    lemma_find_load_missing(l, pid);
}

/// The identifier issued after `p`: one more, skipping 0 on wrap.
pub open spec fn next_pid_after(p: ProcessId) -> ProcessId {
    if p < u32::MAX {
        (p + 1) as u32
    } else {
        1
    }
}

/// Assignment of renderer processes to sites: each site keeps its
/// process; a new site gets a fresh process until the cap is reached
/// and the least-busy process afterwards.
#[derive(Debug)]
pub struct ProcessMap {
    sites: Vec<(SiteKey, ProcessId)>,
    loads: Vec<(ProcessId, u32)>,
    max_processes: usize,
    next_pid: ProcessId,
}

/// How one allocation changes the map: a known site reuses its process
/// and raises its load; an unknown site is bound to a fresh process
/// while under the cap and to the earliest least-busy process at the
/// cap, and the binding is recorded.
pub open spec fn allocate_transition(
    pre: ProcessMap,
    post: ProcessMap,
    scheme: Seq<char>,
    host: Seq<char>,
    port: u16,
    r: ProcessId,
) -> bool {
    &&& post.max_spec() == pre.max_spec()
    &&& match find_site(pre.sites_seq(), scheme, host, port) {
        Some(pid) => {
            &&& r == pid
            &&& post.sites_seq() == pre.sites_seq()
            &&& post.loads_seq() == bump_load(pre.loads_seq(), pid)
            &&& post.next_spec() == pre.next_spec()
        },
        None => {
            let fresh = pre.loads_seq().len() < pre.max_spec();
            let pid = if fresh {
                pre.next_spec()
            } else {
                min_load_entry(pre.loads_seq()).0
            };
            &&& r == pid
            &&& post.next_spec() == (if fresh {
                next_pid_after(pre.next_spec())
            } else {
                pre.next_spec()
            })
            &&& post.sites_seq().len() == pre.sites_seq().len() + 1
            &&& post.sites_seq().drop_last() == pre.sites_seq()
            &&& post.sites_seq().last().0.scheme@ == scheme
            &&& post.sites_seq().last().0.host@ == host
            &&& post.sites_seq().last().0.port == port
            &&& post.sites_seq().last().1 == pid
            &&& post.loads_seq() == bump_load(pre.loads_seq(), pid)
        },
    }
}

/// The site triple an arbitrary URL maps to: its parsed site, or the
/// fallback of scheme `http`, the whole URL as host, and port 0.
pub open spec fn site_for_url(u: Seq<char>) -> (Seq<char>, Seq<char>, u16) {
    match parse_site(u) {
        Some(t) => t,
        None => ("http"@, u, 0u16),
    }
}

impl ProcessMap {
    /// The recorded site bindings, oldest first.
    pub closed spec fn sites_seq(&self) -> Seq<(SiteKey, ProcessId)> {
        self.sites@
    }

    /// The recorded per-process loads, oldest first.
    pub closed spec fn loads_seq(&self) -> Seq<(ProcessId, u32)> {
        self.loads@
    }

    /// The configured process cap.
    pub closed spec fn max_spec(&self) -> int {
        self.max_processes as int
    }

    /// The identifier the next fresh process will get.
    pub closed spec fn next_spec(&self) -> ProcessId {
        self.next_pid
    }

    /// An empty map with the given process cap.
    pub fn new(max_processes: usize) -> (r: ProcessMap)
        ensures
            r.sites_seq().len() == 0,
            r.loads_seq().len() == 0,
            r.max_spec() == max_processes,
            r.next_spec() == 1,
    {
        ProcessMap { sites: Vec::new(), loads: Vec::new(), max_processes, next_pid: 1 }
    }

    /// The configured process cap.
    pub fn capacity(&self) -> (r: usize)
        ensures
            r == self.max_spec(),
    {
        self.max_processes
    }

    /// Number of processes currently tracked.
    pub fn active_processes(&self) -> (r: usize)
        ensures
            r == self.loads_seq().len(),
    {
        self.loads.len()
    }

    /// The process bound to a site, if any.
    #[verifier::loop_isolation(false)]
    fn lookup_site(&self, site: &SiteKey) -> (r: Option<ProcessId>)
        ensures
            r == find_site(self.sites_seq(), site.scheme@, site.host@, site.port),
    {
        let n = self.sites.len();
        let mut j = n;
        proof {
            assert(self.sites@.take(n as int) =~= self.sites@);
        }
        while j > 0
            invariant
                j <= n,
                find_site(self.sites@, site.scheme@, site.host@, site.port) == find_site(
                    self.sites@.take(j as int),
                    site.scheme@,
                    site.host@,
                    site.port,
                ),
            decreases j,
        {
            let entry = &self.sites[j - 1];
            proof {
                assert(self.sites@.take(j as int).last() == self.sites@[j - 1]);
                assert(self.sites@.take(j as int).drop_last() =~= self.sites@.take(j - 1));
            }
            if str_eq(entry.0.scheme.as_str(), site.scheme.as_str()) && str_eq(
                entry.0.host.as_str(),
                site.host.as_str(),
            ) && entry.0.port == site.port {
                return Some(entry.1);
            }
            j = j - 1;
        }
        None
    }

    /// Raise the load of `pid` by one (saturating), adding an entry of
    /// load 1 when none exists.
    #[verifier::loop_isolation(false)]
    fn raise_load(&mut self, pid: ProcessId)
        ensures
            final(self).loads_seq() == bump_load(old(self).loads_seq(), pid),
            final(self).sites_seq() == old(self).sites_seq(),
            final(self).max_spec() == old(self).max_spec(),
            final(self).next_spec() == old(self).next_spec(),
    {
        let n = self.loads.len();
        let mut j = n;
        while j > 0
            invariant
                j <= n,
                *self == *old(self),
                forall|k: int| j <= k < self.loads@.len() ==> (#[trigger] self.loads@[k]).0 != pid,
            decreases j,
        {
            let entry = self.loads[j - 1];
            if entry.0 == pid {
                proof {
                    lemma_bump_load_at(self.loads@, pid, j - 1);
                }
                let v = entry.1;
                let nv = if v < u32::MAX {
                    v + 1
                } else {
                    v
                };
                self.loads[j - 1] = (pid, nv);
                return ;
            }
            j = j - 1;
        }
        proof {
            lemma_bump_load_missing(self.loads@, pid);
        }
        self.loads.push((pid, 1));
    }

    /// Bind an already-parsed site to a process and account one more
    /// use of it; the decision rule is [`allocate_transition`]. The cap
    /// must allow at least one process unless one already runs.
    #[verifier::loop_isolation(false)]
    pub fn allocate_site(&mut self, site: &SiteKey) -> (r: ProcessId)
        requires
            old(self).max_spec() > 0 || old(self).loads_seq().len() > 0,
        ensures
            allocate_transition(
                *old(self),
                *final(self),
                site.scheme@,
                site.host@,
                site.port,
                r,
            ),
    {
        if let Some(pid) = self.lookup_site(site) {
            self.raise_load(pid);
            return pid;
        }
        let fresh = self.loads.len() < self.max_processes;
        let pid: ProcessId;
        if fresh {
            pid = self.next_pid;
            let bumped_next = self.next_pid.wrapping_add(1);
            self.next_pid = if bumped_next < 1 {
                1
            } else {
                bumped_next
            };
        } else {
            let n = self.loads.len();
            let mut cur = self.loads[0];
            proof {
                assert(self.loads@.take(1).len() == 1);
                assert(self.loads@.take(1)[0] == self.loads@[0]);
                assert(cur == min_load_entry(self.loads@.take(1)));
            }
            for i in 1..n
                invariant
                    cur == min_load_entry(self.loads@.take(i as int)),
            {
                proof {
                    assert(self.loads@.take(i + 1).last() == self.loads@[i as int]);
                    assert(self.loads@.take(i + 1).drop_last() =~= self.loads@.take(i as int));
                }
                if self.loads[i].1 < cur.1 {
                    cur = self.loads[i];
                }
            }
            proof {
                assert(self.loads@.take(n as int) =~= self.loads@);
            }
            pid = cur.0;
        }
        self.sites.push((site.clone(), pid));
        proof {
            assert(self.sites@.drop_last() =~= old(self).sites@);
        }
        self.raise_load(pid);
        pid
    }

    /// Allocate a process for a URL: parse it into a site (falling back
    /// to the whole URL as host) and bind that site as
    /// [`allocate_transition`] describes.
    pub fn allocate_process(&mut self, url: &str) -> (r: ProcessId)
        requires
            old(self).max_spec() > 0 || old(self).loads_seq().len() > 0,
        ensures
            allocate_transition(
                *old(self),
                *final(self),
                site_for_url(url@).0,
                site_for_url(url@).1,
                site_for_url(url@).2,
                r,
            ),
    {
        let site = match SiteKey::parse(url) {
            Some(k) => k,
            None => SiteKey { scheme: String::from_str("http"), host: url.to_owned(), port: 0 },
        };
        self.allocate_site(&site)
    }

    /// Account the end of one use of `pid`: its load falls by one,
    /// stopping at zero; the remaining load is returned, 0 for an
    /// unknown process.
    #[verifier::loop_isolation(false)]
    pub fn release_pid(&mut self, pid: ProcessId) -> (r: u32)
        ensures
            final(self).loads_seq() == drop_load(old(self).loads_seq(), pid),
            final(self).sites_seq() == old(self).sites_seq(),
            final(self).max_spec() == old(self).max_spec(),
            final(self).next_spec() == old(self).next_spec(),
            r == (match find_load(old(self).loads_seq(), pid) {
                Some(v) => if v > 0 {
                    (v - 1) as u32
                } else {
                    0u32
                },
                None => 0u32,
            }),
    {
        let n = self.loads.len();
        let mut j = n;
        while j > 0
            invariant
                j <= n,
                *self == *old(self),
                forall|k: int| j <= k < self.loads@.len() ==> (#[trigger] self.loads@[k]).0 != pid,
            decreases j,
        {
            let entry = self.loads[j - 1];
            if entry.0 == pid {
                proof {
                    lemma_drop_load_at(self.loads@, pid, j - 1);
                }
                let v = entry.1;
                let nv = if v > 0 {
                    v - 1
                } else {
                    0
                };
                self.loads[j - 1] = (pid, nv);
                return nv;
            }
            j = j - 1;
        }
        proof {
            lemma_drop_load_missing(self.loads@, pid);
        }
        0
    }
}


} // verus!
