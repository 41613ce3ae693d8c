//! Resumable download manager: a registry of transfer records with a
//! pause/resume/cancel lifecycle, a sandbox resolver for destination
//! paths, and the worker-side state machine that drives each transfer.
//!
//! The registry holds every decision of the subsystem: locator
//! validation, sandbox containment, identifier allocation, the flag
//! protocol between callers and the worker, and each lifecycle
//! transition. The surrounding process performs the file reads and
//! writes and reports each outcome to the registry through the
//! `worker_*` methods; every state a caller can observe through
//! [`DownloadRegistry::status`] is produced here.
//!
//! Paths are plain strings. A destination's file name is the part after
//! the last `/`; a destination whose final component is empty, `.` or
//! `..` is rejected as having no file name. Canonical directories (as
//! produced by the operating system, absolute and free of `.`/`..`
//! segments) are compared for containment textually, component by
//! component.

use vstd::prelude::*;

use crate::text::str_starts_with;

verus! {

/// Opaque handle of one transfer; fresh for every accepted request and
/// never reused by a registry.
#[derive(Debug, Clone, Copy, PartialEq, Eq, Hash, Structural)]
pub struct DownloadId(u64);

impl DownloadId {
    /// The numeric value behind the handle.
    pub closed spec fn value(self) -> u64 {
        self.0
    }
}

/// Point-in-time lifecycle state of one transfer.
#[derive(Debug)]
pub enum DownloadState {
    /// Created; the worker has not started yet.
    Queued,
    /// Actively copying bytes.
    Running {
        /// Bytes durably written to the destination so far.
        downloaded: u64,
        /// Total size of the source, when known.
        total: Option<u64>,
    },
    /// Copy suspended; resumable.
    Paused {
        /// Bytes durably written to the destination so far.
        downloaded: u64,
        /// Total size of the source, when known.
        total: Option<u64>,
    },
    /// All source bytes copied; terminal.
    Completed,
    /// Unrecoverable error; terminal.
    Failed(String),
    /// Caller-requested termination; terminal.
    Canceled,
}

impl Clone for DownloadState {
    fn clone(&self) -> (r: Self)
        ensures
            r == *self,
    {
        match self {
            DownloadState::Queued => DownloadState::Queued,
            DownloadState::Running { downloaded, total } => DownloadState::Running {
                downloaded: *downloaded,
                total: *total,
            },
            DownloadState::Paused { downloaded, total } => DownloadState::Paused {
                downloaded: *downloaded,
                total: *total,
            },
            DownloadState::Completed => DownloadState::Completed,
            DownloadState::Failed(reason) => DownloadState::Failed(reason.clone()),
            DownloadState::Canceled => DownloadState::Canceled,
        }
    }
}

/// A state from which no further transition occurs; the record is frozen.
pub open spec fn is_terminal(s: DownloadState) -> bool {
    s is Completed || s is Failed || s is Canceled
}

/// Error of a registry operation, all surfaced synchronously.
#[derive(Debug, Clone, Copy, PartialEq, Eq, Structural)]
pub enum DownloadError {
    /// The locator's scheme is not the supported local-file scheme.
    UnsupportedScheme,
    /// The locator has the right scheme but an empty path.
    InvalidLocator,
    /// The destination has no usable file name component.
    InvalidDestination,
    /// The destination's parent directory escapes the sandbox root.
    SandboxViolation,
    /// No transfer with the given identifier exists.
    UnknownId,
}

impl DownloadError {
    /// Human-readable description of the error.
    pub fn message(&self) -> (r: &'static str)
        ensures
            self is UnsupportedScheme ==> r@ == "unsupported scheme (only file:// is supported)"@,
            self is InvalidLocator ==> r@ == "invalid file:// url"@,
            self is InvalidDestination ==> r@ == "invalid dst"@,
            self is SandboxViolation ==> r@ == "dst outside download sandbox"@,
            self is UnknownId ==> r@ == "unknown id"@,
    {
        match self {
            DownloadError::UnsupportedScheme => "unsupported scheme (only file:// is supported)",
            DownloadError::InvalidLocator => "invalid file:// url",
            DownloadError::InvalidDestination => "invalid dst",
            DownloadError::SandboxViolation => "dst outside download sandbox",
            DownloadError::UnknownId => "unknown id",
        }
    }
}

// ---------------------------------------------------------------------
// Locators
// ---------------------------------------------------------------------

/// The locator begins with the local-file scheme prefix `file://`.
pub open spec fn has_file_scheme(u: Seq<char>) -> bool {
    u.len() >= 7 && u.subrange(0, 7) == "file://"@
}

/// Length of the scheme part of a locator: the characters before the
/// first `://`, or the whole locator when no separator occurs.
pub open spec fn scheme_len(u: Seq<char>) -> nat
    decreases u.len(),
{
    if u.len() < 3 {
        u.len()
    } else if u[0] == ':' && u[1] == '/' && u[2] == '/' {
        0
    } else {
        1 + scheme_len(u.skip(1))
    }
}

/// The scheme part of a locator: everything before the first `://`
/// separator, or the whole string when none occurs.
pub fn parse_scheme<'a>(url: &'a str) -> (r: Option<&'a str>)
    ensures
        r matches Some(s) && s@ == url@.subrange(0, scheme_len(url@) as int),
{
    let len = url.unicode_len();
    let mut i: usize = 0;
    loop
        invariant
            i <= len,
            len == url@.len(),
            forall|k: int| #![trigger url@[k]]
                0 <= k < i ==> !(k + 3 <= len && url@[k] == ':' && url@[k + 1] == '/' && url@[k
                    + 2] == '/'),
        decreases len - i,
    {
        if len - i < 3 {
            proof {
                lemma_scheme_len_no_sep(url@, i as int);
            }
            return Some(url.substring_char(0, len));
        }
        if url.get_char(i) == ':' && url.get_char(i + 1) == '/' && url.get_char(i + 2) == '/' {
            proof {
                lemma_scheme_len_sep(url@, i as int);
            }
            return Some(url.substring_char(0, i));
        }
        i = i + 1;
    }
}

/// The scheme part never reaches past the end of the locator.
pub proof fn lemma_scheme_len_bound(u: Seq<char>)
    ensures
        scheme_len(u) <= u.len(),
    decreases u.len(),
{
    if u.len() >= 3 && !(u[0] == ':' && u[1] == '/' && u[2] == '/') {
        lemma_scheme_len_bound(u.skip(1));
    }
}

proof fn lemma_scheme_len_no_sep(u: Seq<char>, i: int)
    requires
        0 <= i <= u.len(),
        i + 3 > u.len(),
        forall|k: int| #![trigger u[k]]
            0 <= k < i ==> !(k + 3 <= u.len() && u[k] == ':' && u[k + 1] == '/' && u[k + 2] == '/'),
    ensures
        scheme_len(u) == u.len(),
    decreases u.len(),
{
    if u.len() < 3 {
    } else {
        assert(i >= 1);
        assert(!(0 + 3 <= u.len() && u[0] == ':' && u[1] == '/' && u[2] == '/'));
        let t = u.skip(1);
        assert(forall|k: int| 0 <= k < t.len() ==> t[k] == u[k + 1]);
        assert(forall|k: int| #![trigger t[k]]
            0 <= k < i - 1 ==> !(k + 3 <= t.len() && t[k] == ':' && t[k + 1] == '/' && t[k + 2]
                == '/')) by {
            assert forall|k: int| #![trigger t[k]] 0 <= k < i - 1 implies !(k + 3 <= t.len()
                && t[k] == ':' && t[k + 1] == '/' && t[k + 2] == '/') by {
                assert(!(k + 1 + 3 <= u.len() && u[k + 1] == ':' && u[k + 2] == '/' && u[k + 3]
                    == '/'));
            }
        }
        lemma_scheme_len_no_sep(t, i - 1);
        assert(scheme_len(u) == 1 + scheme_len(t));
    }
}

proof fn lemma_scheme_len_sep(u: Seq<char>, i: int)
    requires
        0 <= i,
        i + 3 <= u.len(),
        u[i] == ':' && u[i + 1] == '/' && u[i + 2] == '/',
        forall|k: int| #![trigger u[k]]
            0 <= k < i ==> !(k + 3 <= u.len() && u[k] == ':' && u[k + 1] == '/' && u[k + 2] == '/'),
    ensures
        scheme_len(u) == i,
    decreases i,
{
    if i == 0 {
    } else {
        assert(!(0 + 3 <= u.len() && u[0] == ':' && u[1] == '/' && u[2] == '/'));
        let t = u.skip(1);
        assert(forall|k: int| 0 <= k < t.len() ==> t[k] == u[k + 1]);
        assert(t[i - 1] == ':' && t[i] == '/' && t[i + 1] == '/');
        assert(forall|k: int| #![trigger t[k]]
            0 <= k < i - 1 ==> !(k + 3 <= t.len() && t[k] == ':' && t[k + 1] == '/' && t[k + 2]
                == '/')) by {
            assert forall|k: int| #![trigger t[k]] 0 <= k < i - 1 implies !(k + 3 <= t.len()
                && t[k] == ':' && t[k + 1] == '/' && t[k + 2] == '/') by {
                assert(!(k + 1 + 3 <= u.len() && u[k + 1] == ':' && u[k + 2] == '/' && u[k + 3]
                    == '/'));
            }
        }
        lemma_scheme_len_sep(t, i - 1);
        assert(scheme_len(u) == 1 + scheme_len(t));
    }
}

/// Strip the `file://` prefix of a locator, yielding the source path.
///
/// Fails with [`DownloadError::UnsupportedScheme`] when the prefix is
/// absent and with [`DownloadError::InvalidLocator`] when nothing
/// follows it.
pub fn file_path_from_url(url: &str) -> (r: Result<String, DownloadError>)
    ensures
        !has_file_scheme(url@) ==> r == Err::<String, _>(DownloadError::UnsupportedScheme),
        has_file_scheme(url@) && url@.len() == 7 ==> r == Err::<String, _>(
            DownloadError::InvalidLocator,
        ),
        has_file_scheme(url@) && url@.len() > 7 ==> (r matches Ok(p) && p@ == url@.skip(7)),
{
    proof {
        reveal_strlit("file://");
    }
    if !str_starts_with(url, "file://") {
        return Err(DownloadError::UnsupportedScheme);
    }
    let len = url.unicode_len();
    if len == 7 {
        return Err(DownloadError::InvalidLocator);
    }
    let path = url.substring_char(7, len);
    proof {
        assert(path@ =~= url@.skip(7));
    }
    Ok(path.to_owned())
}

// ---------------------------------------------------------------------
// Destination paths and the sandbox
// ---------------------------------------------------------------------

/// Index of the last `/` in a path, or `-1` when none occurs.
pub open spec fn last_slash(p: Seq<char>) -> int
    decreases p.len(),
{
    if p.len() == 0 {
        -1
    } else if p[p.len() - 1] == '/' {
        p.len() - 1
    } else {
        last_slash(p.drop_last())
    }
}

proof fn lemma_last_slash(p: Seq<char>)
    ensures
        -1 <= last_slash(p) < p.len(),
        last_slash(p) >= 0 ==> p[last_slash(p)] == '/',
        forall|k: int| last_slash(p) < k < p.len() ==> p[k] != '/',
    decreases p.len(),
{
    if p.len() > 0 && p[p.len() - 1] != '/' {
        lemma_last_slash(p.drop_last());
        assert(forall|k: int| 0 <= k < p.len() - 1 ==> p.drop_last()[k] == p[k]);
    }
}

/// The file name component of a destination path: the part after the
/// last `/`. A path whose final component is empty, `.` or `..` has no
/// file name.
pub open spec fn file_name_of(p: Seq<char>) -> Option<Seq<char>> {
    let tail = p.subrange(last_slash(p) + 1, p.len() as int);
    if tail.len() == 0 || tail == seq!['.'] || tail == seq!['.', '.'] {
        None
    } else {
        Some(tail)
    }
}

/// The parent directory of a destination path: everything before the
/// last `/`; the empty string when the path has no `/`, and `/` itself
/// for a path directly under the root.
pub open spec fn parent_dir_of(p: Seq<char>) -> Seq<char> {
    let ls = last_slash(p);
    if ls < 0 {
        Seq::empty()
    } else if ls == 0 {
        seq!['/']
    } else {
        p.subrange(0, ls)
    }
}

proof fn lemma_last_slash_pin(p: Seq<char>, i: int)
    requires
        0 <= i < p.len(),
        p[i] == '/',
        forall|k: int| i < k < p.len() ==> p[k] != '/',
    ensures
        last_slash(p) == i,
    decreases p.len(),
{
    if i == p.len() - 1 {
    } else {
        assert(p[p.len() - 1] != '/');
        let q = p.drop_last();
        assert(forall|k: int| 0 <= k < q.len() ==> q[k] == p[k]);
        lemma_last_slash_pin(q, i);
    }
}

proof fn lemma_last_slash_none(p: Seq<char>)
    requires
        forall|k: int| 0 <= k < p.len() ==> p[k] != '/',
    ensures
        last_slash(p) == -1,
    decreases p.len(),
{
    if p.len() > 0 {
        let q = p.drop_last();
        assert(forall|k: int| 0 <= k < q.len() ==> q[k] == p[k]);
        lemma_last_slash_none(q);
    }
}

/// Index of the last `/` of `p`, executable form.
fn find_last_slash(p: &str) -> (r: Option<usize>)
    ensures
        r matches Some(i) ==> i < p@.len() && last_slash(p@) == i,
        r is None ==> last_slash(p@) == -1,
{
    let len = p.unicode_len();
    let mut i = len;
    while i > 0
        invariant
            i <= len,
            len == p@.len(),
            forall|k: int| i <= k < p@.len() ==> p@[k] != '/',
        decreases i,
    {
        let j = i - 1;
        if p.get_char(j) == '/' {
            proof {
                lemma_last_slash_pin(p@, j as int);
            }
            return Some(j);
        }
        i = j;
    }
    proof {
        lemma_last_slash_none(p@);
    }
    None
}

/// The file name component of `dst`, executable form of [`file_name_of`].
pub fn dest_file_name(dst: &str) -> (r: Option<String>)
    ensures
        r matches Some(n) ==> file_name_of(dst@) matches Some(m) && n@ == m,
        r is None ==> file_name_of(dst@) is None,
{
    proof {
        lemma_last_slash(dst@);
        reveal_strlit(".");
        reveal_strlit("..");
    }
    let len = dst.unicode_len();
    let start: usize = match find_last_slash(dst) {
        Some(i) => i + 1,
        None => 0,
    };
    let tail = dst.substring_char(start, len);
    let tail_len = len - start;
    if tail_len == 0 {
        return None;
    }
    if tail_len == 1 && tail.get_char(0) == '.' {
        proof {
            assert(tail@ =~= seq!['.']);
        }
        return None;
    }
    if tail_len == 2 && tail.get_char(0) == '.' && tail.get_char(1) == '.' {
        proof {
            assert(tail@ =~= seq!['.', '.']);
        }
        return None;
    }
    proof {
        assert(tail@ != seq!['.'] && tail@ != seq!['.', '.']) by {
            if tail@ == seq!['.'] {
                assert(tail@.len() == 1 && tail@[0] == '.');
            }
            if tail@ == seq!['.', '.'] {
                assert(tail@.len() == 2 && tail@[0] == '.' && tail@[1] == '.');
            }
        }
    }
    Some(tail.to_owned())
}

/// The parent directory of `dst`, executable form of [`parent_dir_of`].
/// The caller resolves the result (or the sandbox root, when it is
/// empty) to its canonical form before asking for containment.
pub fn dest_parent_dir(dst: &str) -> (r: String)
    ensures
        r@ == parent_dir_of(dst@),
{
    match find_last_slash(dst) {
        Some(i) => {
            if i == 0 {
                let root = String::from_str("/");
                proof {
                    reveal_strlit("/");
                    assert(root@ =~= seq!['/']);
                }
                root
            } else {
                let par = dst.substring_char(0, i);
                par.to_owned()
            }
        },
        None => String::new(),
    }
}

/// Containment of one canonical path under another, component-wise:
/// `p` lies under `base` when it equals `base` or extends it at a `/`
/// boundary (everything lies under the root `/`).
pub open spec fn path_within(base: Seq<char>, p: Seq<char>) -> bool {
    p == base || (base.len() < p.len() && p.subrange(0, base.len() as int) == base && (base
        == seq!['/'] || p[base.len() as int] == '/'))
}

/// Executable form of [`path_within`].
pub fn path_is_within(base: &str, p: &str) -> (r: bool)
    ensures
        r == path_within(base@, p@),
{
    proof {
        reveal_strlit("/");
    }
    let base_len = base.unicode_len();
    let p_len = p.unicode_len();
    if crate::text::str_eq(p, base) {
        return true;
    }
    if base_len >= p_len {
        proof {
            assert(!path_within(base@, p@));
        }
        return false;
    }
    if !str_starts_with(p, base) {
        return false;
    }
    if base_len == 1 && base.get_char(0) == '/' {
        proof {
            assert(base@ =~= seq!['/']);
        }
        return true;
    }
    let r = p.get_char(base_len) == '/';
    proof {
        if base@ == seq!['/'] {
            assert(base@.len() == 1 && base@[0] == '/');
        }
    }
    r
}

/// Join a canonical parent directory and a file name with a `/`
/// separator (none is added after the root `/` itself).
pub open spec fn joined_path(parent: Seq<char>, name: Seq<char>) -> Seq<char> {
    if parent == seq!['/'] {
        parent + name
    } else {
        parent + seq!['/'] + name
    }
}

/// Resolve a caller-supplied destination against the sandbox.
///
/// `canon_base` is the canonical sandbox root and `canon_parent` the
/// canonical form of the destination's parent directory, both resolved
/// by the caller. Only the destination's file name is kept — any
/// directory part of `dst` beyond its immediate parent is discarded —
/// and the parent must lie within the root; these two layers together
/// neutralise `..`-style traversal.
pub fn resolve_destination(canon_base: &str, canon_parent: &str, dst: &str) -> (r: Result<
    String,
    DownloadError,
>)
    ensures
        file_name_of(dst@) is None ==> r == Err::<String, _>(DownloadError::InvalidDestination),
        file_name_of(dst@) is Some && !path_within(canon_base@, canon_parent@) ==> r == Err::<
            String,
            _,
        >(DownloadError::SandboxViolation),
        file_name_of(dst@) is Some && path_within(canon_base@, canon_parent@) ==> (r matches Ok(
            full,
        ) && full@ == joined_path(canon_parent@, file_name_of(dst@)->Some_0)),
{
    let name = match dest_file_name(dst) {
        Some(n) => n,
        None => {
            return Err(DownloadError::InvalidDestination);
        },
    };
    if !path_is_within(canon_base, canon_parent) {
        return Err(DownloadError::SandboxViolation);
    }
    proof {
        reveal_strlit("/");
        assert("/"@ =~= seq!['/']);
    }
    let is_root = canon_parent.unicode_len() == 1 && canon_parent.get_char(0) == '/';
    proof {
        if is_root {
            assert(canon_parent@ =~= seq!['/']);
        } else if canon_parent@ == seq!['/'] {
            assert(canon_parent@.len() == 1 && canon_parent@[0] == '/');
        }
    }
    let mut full = String::new();
    full.append(canon_parent);
    if !is_root {
        full.append("/");
    }
    full.append(name.as_str());
    proof {
        assert(full@ =~= joined_path(canon_parent@, file_name_of(dst@)->Some_0));
    }
    Ok(full)
}

// ---------------------------------------------------------------------
// Transfer records and the registry
// ---------------------------------------------------------------------

/// Per-transfer mutable state, shared between the callers (flags,
/// snapshots) and the worker (progress, lifecycle transitions).
pub struct TransferRecord {
    /// The locator this transfer was started with.
    pub url: String,
    /// Resolved absolute destination path inside the sandbox.
    pub dst_path: String,
    /// Bytes durably written to the destination; advanced only after a
    /// successful write, never speculatively.
    pub downloaded: u64,
    /// Total size of the source, unknown until the worker determines it.
    pub total: Option<u64>,
    /// Caller-set request to suspend the copy.
    pub paused: bool,
    /// Caller-set request to terminate the copy.
    pub canceled: bool,
    /// Current lifecycle state.
    pub state: DownloadState,
}

/// What the worker is to do at its next check point, derived from the
/// record's control flags; cancellation wins over pause.
#[derive(Debug, Clone, Copy, PartialEq, Eq, Structural)]
pub enum WorkerDirective {
    /// Copy the next chunk.
    Proceed,
    /// Hold in the paused state and poll again.
    Pause,
    /// Stop and transition to `Canceled`.
    Cancel,
}

/// The directive the flags of `r` dictate.
pub open spec fn directive_of(r: TransferRecord) -> WorkerDirective {
    if r.canceled {
        WorkerDirective::Cancel
    } else if r.paused {
        WorkerDirective::Pause
    } else {
        WorkerDirective::Proceed
    }
}

/// `r` with its pause flag set to `p`; nothing else changes.
pub open spec fn with_paused(r: TransferRecord, p: bool) -> TransferRecord {
    TransferRecord { paused: p, ..r }
}

/// `r` with its cancel flag set; nothing else changes.
pub open spec fn with_cancel_requested(r: TransferRecord) -> TransferRecord {
    TransferRecord { canceled: true, ..r }
}

/// `r` with a new lifecycle state; progress and flags unchanged.
pub open spec fn with_state(r: TransferRecord, s: DownloadState) -> TransferRecord {
    TransferRecord { state: s, ..r }
}

/// `r` with new progress and lifecycle state; flags unchanged.
pub open spec fn with_progress(
    r: TransferRecord,
    done: u64,
    total: Option<u64>,
    s: DownloadState,
) -> TransferRecord {
    TransferRecord { downloaded: done, total: total, state: s, ..r }
}

/// Effect of `pause` on the record sequence.
pub open spec fn spec_pause(s: Seq<TransferRecord>, i: int) -> Seq<TransferRecord> {
    s.update(i, with_paused(s[i], true))
}

/// Effect of `resume` on the record sequence.
pub open spec fn spec_resume(s: Seq<TransferRecord>, i: int) -> Seq<TransferRecord> {
    s.update(i, with_paused(s[i], false))
}

/// Effect of `cancel` on the record sequence.
pub open spec fn spec_cancel(s: Seq<TransferRecord>, i: int) -> Seq<TransferRecord> {
    s.update(i, with_cancel_requested(s[i]))
}

/// Effect of the worker reporting a pause observation.
pub open spec fn spec_worker_paused(
    s: Seq<TransferRecord>,
    i: int,
    done: u64,
    total: Option<u64>,
) -> Seq<TransferRecord> {
    s.update(
        i,
        with_progress(s[i], done, total, DownloadState::Paused { downloaded: done, total: total }),
    )
}

/// Process-wide registry of transfers: the only component callers see.
/// Identifiers are assigned monotonically from 1 and never reused;
/// entries are never removed, so terminal snapshots stay queryable.
pub struct DownloadRegistry {
    entries: Vec<TransferRecord>,
}

impl DownloadRegistry {
    /// The records held, in order of creation; the record of identifier
    /// `n` is at position `n - 1`.
    pub closed spec fn records(&self) -> Seq<TransferRecord> {
        self.entries@
    }

    /// A transfer with this identifier exists.
    pub open spec fn is_known(&self, id: DownloadId) -> bool {
        1 <= id.value() && id.value() <= self.records().len()
    }

    /// The record of a known identifier.
    pub open spec fn record_of(&self, id: DownloadId) -> TransferRecord {
        self.records()[id.value() - 1]
    }

    /// The snapshot `status` returns for `id`.
    pub open spec fn status_of(&self, id: DownloadId) -> Option<DownloadState> {
        if self.is_known(id) {
            Some(self.record_of(id).state)
        } else {
            None
        }
    }

    /// An empty registry.
    pub fn new() -> (r: Self)
        ensures
            r.records().len() == 0,
    {
        DownloadRegistry { entries: Vec::new() }
    }

    /// Number of transfers ever started in this registry.
    pub fn count(&self) -> (r: usize)
        ensures
            r == self.records().len(),
    {
        self.entries.len()
    }

    /// Accept a transfer request: validate the locator's scheme, resolve
    /// the destination against the sandbox, and create a fresh `Queued`
    /// record with both control flags clear. Returns immediately; no
    /// byte is transferred here. `canon_base` and `canon_parent` are the
    /// canonical sandbox root and destination parent directory, resolved
    /// by the caller (see [`resolve_destination`]).
    pub fn start(&mut self, url: &str, dst: &str, canon_base: &str, canon_parent: &str) -> (r:
        Result<DownloadId, DownloadError>)
        requires
            old(self).records().len() < u64::MAX,
        ensures
            !has_file_scheme(url@) ==> r == Err::<DownloadId, _>(DownloadError::UnsupportedScheme)
                && *final(self) == *old(self),
            has_file_scheme(url@) && url@.len() == 7 ==> r == Err::<DownloadId, _>(
                DownloadError::InvalidLocator,
            ) && *final(self) == *old(self),
            has_file_scheme(url@) && url@.len() > 7 && file_name_of(dst@) is None ==> r == Err::<
                DownloadId,
                _,
            >(DownloadError::InvalidDestination) && *final(self) == *old(self),
            has_file_scheme(url@) && url@.len() > 7 && file_name_of(dst@) is Some && !path_within(
                canon_base@,
                canon_parent@,
            ) ==> r == Err::<DownloadId, _>(DownloadError::SandboxViolation) && *final(self)
                == *old(self),
            has_file_scheme(url@) && url@.len() > 7 && file_name_of(dst@) is Some && path_within(
                canon_base@,
                canon_parent@,
            ) ==> (r matches Ok(id) && !old(self).is_known(id) && id.value() == old(
                self,
            ).records().len() + 1 && final(self).records().drop_last() == old(self).records()
                && final(self).records().len() == old(self).records().len() + 1 && ({
                let rec = final(self).records().last();
                rec.url@ == url@ && rec.dst_path@ == joined_path(
                    canon_parent@,
                    file_name_of(dst@)->Some_0,
                ) && rec.downloaded == 0 && rec.total is None && !rec.paused && !rec.canceled
                    && rec.state is Queued
            }) && final(self).status_of(id) == Some(DownloadState::Queued)),
    {
        proof {
            reveal_strlit("file://");
        }
        if !str_starts_with(url, "file://") {
            return Err(DownloadError::UnsupportedScheme);
        }
        if url.unicode_len() == 7 {
            return Err(DownloadError::InvalidLocator);
        }
        let dst_full = match resolve_destination(canon_base, canon_parent, dst) {
            Ok(p) => p,
            Err(e) => {
                return Err(e);
            },
        };
        let idx = self.entries.len();
        let id = DownloadId((idx as u64) + 1);
        let rec = TransferRecord {
            url: url.to_owned(),
            dst_path: dst_full,
            downloaded: 0,
            total: None,
            paused: false,
            canceled: false,
            state: DownloadState::Queued,
        };
        self.entries.push(rec);
        proof {
            assert(final(self).records().drop_last() =~= old(self).records());
        }
        Ok(id)
    }

    /// Request suspension of a transfer: set its pause flag. A no-op
    /// beyond the flag — the worker transitions the state at its next
    /// check point. Fails only for an unknown identifier.
    pub fn pause(&mut self, id: DownloadId) -> (r: Result<(), DownloadError>)
        ensures
            !old(self).is_known(id) ==> r == Err::<(), _>(DownloadError::UnknownId) && *final(self)
                == *old(self),
            old(self).is_known(id) ==> r == Ok::<_, DownloadError>(()) && final(self).records()
                == spec_pause(old(self).records(), id.value() - 1),
    {
        if id.0 < 1 || id.0 > self.entries.len() as u64 {
            return Err(DownloadError::UnknownId);
        }
        let idx = (id.0 - 1) as usize;
        self.entries[idx].paused = true;
        proof {
            assert(self.records() =~= spec_pause(old(self).records(), id.value() - 1));
        }
        Ok(())
    }

    /// Clear a transfer's pause flag so the worker proceeds at its next
    /// check point. Fails only for an unknown identifier.
    pub fn resume(&mut self, id: DownloadId) -> (r: Result<(), DownloadError>)
        ensures
            !old(self).is_known(id) ==> r == Err::<(), _>(DownloadError::UnknownId) && *final(self)
                == *old(self),
            old(self).is_known(id) ==> r == Ok::<_, DownloadError>(()) && final(self).records()
                == spec_resume(old(self).records(), id.value() - 1),
    {
        if id.0 < 1 || id.0 > self.entries.len() as u64 {
            return Err(DownloadError::UnknownId);
        }
        let idx = (id.0 - 1) as usize;
        self.entries[idx].paused = false;
        proof {
            assert(self.records() =~= spec_resume(old(self).records(), id.value() - 1));
        }
        Ok(())
    }

    /// Request termination of a transfer: set its cancel flag. The state
    /// does not change here; the worker transitions to `Canceled` at its
    /// next check point. Fails only for an unknown identifier.
    pub fn cancel(&mut self, id: DownloadId) -> (r: Result<(), DownloadError>)
        ensures
            !old(self).is_known(id) ==> r == Err::<(), _>(DownloadError::UnknownId) && *final(self)
                == *old(self),
            old(self).is_known(id) ==> r == Ok::<_, DownloadError>(()) && final(self).records()
                == spec_cancel(old(self).records(), id.value() - 1),
    {
        if id.0 < 1 || id.0 > self.entries.len() as u64 {
            return Err(DownloadError::UnknownId);
        }
        let idx = (id.0 - 1) as usize;
        self.entries[idx].canceled = true;
        proof {
            assert(self.records() =~= spec_cancel(old(self).records(), id.value() - 1));
        }
        Ok(())
    }

    /// Immediate snapshot of a transfer's state; `None` only for an
    /// unknown identifier, also after termination.
    pub fn status(&self, id: DownloadId) -> (r: Option<DownloadState>)
        ensures
            r == self.status_of(id),
    {
        if id.0 < 1 || id.0 > self.entries.len() as u64 {
            return None;
        }
        let idx = (id.0 - 1) as usize;
        Some(self.entries[idx].state.clone())
    }

    // -----------------------------------------------------------------
    // Worker-side transitions
    // -----------------------------------------------------------------

    /// What the worker is to do next, read from the control flags.
    pub fn worker_directive(&self, id: DownloadId) -> (r: WorkerDirective)
        requires
            self.is_known(id),
        ensures
            r == directive_of(self.record_of(id)),
    {
        let n = self.entries.len();
        proof {
            assert(id.value() - 1 < n);
        }
        let idx = (id.0 - 1) as usize;
        if self.entries[idx].canceled {
            WorkerDirective::Cancel
        } else if self.entries[idx].paused {
            WorkerDirective::Pause
        } else {
            WorkerDirective::Proceed
        }
    }

    /// Worker entry: the transfer leaves `Queued` and starts `Running`
    /// with its recorded progress and a still-unknown total.
    pub fn worker_begin(&mut self, id: DownloadId)
        requires
            old(self).is_known(id),
            old(self).record_of(id).state is Queued,
        ensures
            final(self).records() == old(self).records().update(
                id.value() - 1,
                with_state(
                    old(self).record_of(id),
                    DownloadState::Running {
                        downloaded: old(self).record_of(id).downloaded,
                        total: None,
                    },
                ),
            ),
    {
        let n = self.entries.len();
        proof {
            assert(id.value() - 1 < n);
        }
        let idx = (id.0 - 1) as usize;
        let done = self.entries[idx].downloaded;
        self.entries[idx].state = DownloadState::Running { downloaded: done, total: None };
        proof {
            assert(self.records() =~= old(self).records().update(
                id.value() - 1,
                with_state(
                    old(self).record_of(id),
                    DownloadState::Running {
                        downloaded: old(self).record_of(id).downloaded,
                        total: None,
                    },
                ),
            ));
        }
    }

    /// Worker report of an unrecoverable failure: the transfer becomes
    /// `Failed(reason)` and is frozen; progress keeps its last durable
    /// value.
    pub fn worker_fail(&mut self, id: DownloadId, reason: String)
        requires
            old(self).is_known(id),
            !is_terminal(old(self).record_of(id).state),
        ensures
            final(self).records() == old(self).records().update(
                id.value() - 1,
                with_state(old(self).record_of(id), DownloadState::Failed(reason)),
            ),
    {
        let n = self.entries.len();
        proof {
            assert(id.value() - 1 < n);
        }
        let idx = (id.0 - 1) as usize;
        self.entries[idx].state = DownloadState::Failed(reason);
        proof {
            assert(self.records() =~= old(self).records().update(
                id.value() - 1,
                with_state(old(self).record_of(id), DownloadState::Failed(reason)),
            ));
        }
    }

    /// Worker report of one copied chunk: `done` bytes are now durably
    /// written and the transfer is `Running`.
    pub fn worker_progress(&mut self, id: DownloadId, done: u64, total: Option<u64>)
        requires
            old(self).is_known(id),
            !is_terminal(old(self).record_of(id).state),
        ensures
            final(self).records() == old(self).records().update(
                id.value() - 1,
                with_progress(
                    old(self).record_of(id),
                    done,
                    total,
                    DownloadState::Running { downloaded: done, total: total },
                ),
            ),
    {
        let n = self.entries.len();
        proof {
            assert(id.value() - 1 < n);
        }
        let idx = (id.0 - 1) as usize;
        self.entries[idx].downloaded = done;
        self.entries[idx].total = total;
        self.entries[idx].state = DownloadState::Running { downloaded: done, total: total };
        proof {
            assert(self.records() =~= old(self).records().update(
                id.value() - 1,
                with_progress(
                    old(self).record_of(id),
                    done,
                    total,
                    DownloadState::Running { downloaded: done, total: total },
                ),
            ));
        }
    }

    /// Worker observation of the pause flag: the transfer is `Paused`
    /// at `done` bytes until the flag clears or a cancel arrives.
    pub fn worker_paused(&mut self, id: DownloadId, done: u64, total: Option<u64>)
        requires
            old(self).is_known(id),
            !is_terminal(old(self).record_of(id).state),
        ensures
            final(self).records() == spec_worker_paused(
                old(self).records(),
                id.value() - 1,
                done,
                total,
            ),
    {
        let n = self.entries.len();
        proof {
            assert(id.value() - 1 < n);
        }
        let idx = (id.0 - 1) as usize;
        self.entries[idx].downloaded = done;
        self.entries[idx].total = total;
        self.entries[idx].state = DownloadState::Paused { downloaded: done, total: total };
        proof {
            assert(self.records() =~= spec_worker_paused(
                old(self).records(),
                id.value() - 1,
                done,
                total,
            ));
        }
    }

    /// Worker observation of the cancel flag: the transfer records its
    /// durable byte count and becomes `Canceled`, frozen.
    pub fn worker_cancel(&mut self, id: DownloadId, done: u64)
        requires
            old(self).is_known(id),
            !is_terminal(old(self).record_of(id).state),
        ensures
            final(self).records() == old(self).records().update(
                id.value() - 1,
                TransferRecord {
                    downloaded: done,
                    state: DownloadState::Canceled,
                    ..old(self).record_of(id)
                },
            ),
    {
        let n = self.entries.len();
        proof {
            assert(id.value() - 1 < n);
        }
        let idx = (id.0 - 1) as usize;
        self.entries[idx].downloaded = done;
        self.entries[idx].state = DownloadState::Canceled;
        proof {
            assert(self.records() =~= old(self).records().update(
                id.value() - 1,
                TransferRecord {
                    downloaded: done,
                    state: DownloadState::Canceled,
                    ..old(self).record_of(id)
                },
            ));
        }
    }

    /// Worker report of end-of-stream: all source bytes are copied and
    /// the transfer is `Completed`, frozen.
    pub fn worker_complete(&mut self, id: DownloadId, done: u64, total: Option<u64>)
        requires
            old(self).is_known(id),
            !is_terminal(old(self).record_of(id).state),
        ensures
            final(self).records() == old(self).records().update(
                id.value() - 1,
                with_progress(old(self).record_of(id), done, total, DownloadState::Completed),
            ),
    {
        let n = self.entries.len();
        proof {
            assert(id.value() - 1 < n);
        }
        let idx = (id.0 - 1) as usize;
        self.entries[idx].downloaded = done;
        self.entries[idx].total = total;
        self.entries[idx].state = DownloadState::Completed;
        proof {
            assert(self.records() =~= old(self).records().update(
                id.value() - 1,
                with_progress(old(self).record_of(id), done, total, DownloadState::Completed),
            ));
        }
    }
}

// ---------------------------------------------------------------------
// Laws of the lifecycle
// ---------------------------------------------------------------------

/// Pausing is idempotent: a second `pause` of the same transfer leaves
/// the registry exactly as the first did.
pub proof fn lemma_pause_idempotent(s: Seq<TransferRecord>, i: int)
    requires
        0 <= i < s.len(),
    ensures
        spec_pause(spec_pause(s, i), i) == spec_pause(s, i),
{
    assert(spec_pause(spec_pause(s, i), i) =~= spec_pause(s, i));
}

/// Resuming is idempotent: a second `resume` of the same transfer
/// leaves the registry exactly as the first did.
pub proof fn lemma_resume_idempotent(s: Seq<TransferRecord>, i: int)
    requires
        0 <= i < s.len(),
    ensures
        spec_resume(spec_resume(s, i), i) == spec_resume(s, i),
{
    assert(spec_resume(spec_resume(s, i), i) =~= spec_resume(s, i));
}

/// The flag operations never touch a transfer's observable state or
/// progress: pause, resume and cancel requests change the flags alone,
/// so a snapshot taken before and after shows the same `DownloadState`.
pub proof fn lemma_flags_leave_state(s: Seq<TransferRecord>, i: int)
    requires
        0 <= i < s.len(),
    ensures
        spec_pause(s, i)[i].state == s[i].state,
        spec_pause(s, i)[i].downloaded == s[i].downloaded,
        spec_resume(s, i)[i].state == s[i].state,
        spec_resume(s, i)[i].downloaded == s[i].downloaded,
        spec_cancel(s, i)[i].state == s[i].state,
        spec_cancel(s, i)[i].downloaded == s[i].downloaded,
{
}

/// Pause stability: while the worker keeps observing the pause flag at
/// the same durable byte count, re-reporting the pause changes nothing —
/// the snapshot stays `Paused` with the same count.
pub proof fn lemma_paused_stable(s: Seq<TransferRecord>, i: int, done: u64, total: Option<u64>)
    requires
        0 <= i < s.len(),
    ensures
        spec_worker_paused(spec_worker_paused(s, i, done, total), i, done, total)
            == spec_worker_paused(s, i, done, total),
        spec_worker_paused(s, i, done, total)[i].state == (DownloadState::Paused {
            downloaded: done,
            total: total,
        }),
{
    assert(spec_worker_paused(spec_worker_paused(s, i, done, total), i, done, total)
        =~= spec_worker_paused(s, i, done, total));
}

/// After `resume`, a transfer whose cancel flag is clear directs its
/// worker to proceed: the copy continues toward completion.
pub proof fn lemma_resume_directs_proceed(s: Seq<TransferRecord>, i: int)
    requires
        0 <= i < s.len(),
        !s[i].canceled,
    ensures
        directive_of(spec_resume(s, i)[i]) == WorkerDirective::Proceed,
{
}

} // verus!
