//! Per-origin permission decisions: grant, deny, revoke and check,
//! with a configurable default for origins without a stored decision.

use vstd::prelude::*;

use crate::text::str_eq;

verus! {

/// The capabilities an origin can ask for.
#[derive(Debug, Clone, Copy, PartialEq, Eq, Hash, Structural)]
pub enum PermissionKind {
    /// Showing notifications.
    Notifications,
    /// Reading the device location.
    Geolocation,
    /// Using the camera.
    Camera,
    /// Using the microphone.
    Microphone,
    /// Reading the clipboard.
    ClipboardRead,
    /// Writing the clipboard.
    ClipboardWrite,
}

/// The stable name of each permission kind.
pub open spec fn kind_name(k: PermissionKind) -> Seq<char> {
    match k {
        PermissionKind::Notifications => "Notifications"@,
        PermissionKind::Geolocation => "Geolocation"@,
        PermissionKind::Camera => "Camera"@,
        PermissionKind::Microphone => "Microphone"@,
        PermissionKind::ClipboardRead => "ClipboardRead"@,
        PermissionKind::ClipboardWrite => "ClipboardWrite"@,
    }
}

impl PermissionKind {
    /// The stable name of this kind.
    pub fn as_str(&self) -> (r: &'static str)
        ensures
            r@ == kind_name(*self),
    {
        match self {
            PermissionKind::Notifications => "Notifications",
            PermissionKind::Geolocation => "Geolocation",
            PermissionKind::Camera => "Camera",
            PermissionKind::Microphone => "Microphone",
            PermissionKind::ClipboardRead => "ClipboardRead",
            PermissionKind::ClipboardWrite => "ClipboardWrite",
        }
    }
}

/// A stored or default decision for a permission request.
#[derive(Debug, Clone, Copy, PartialEq, Eq, Structural)]
pub enum Decision {
    /// The request is granted.
    Allow,
    /// The request is denied.
    Deny,
    /// The user is to be asked.
    Prompt,
}

impl Default for Decision {
    /// The default decision is to prompt.
    fn default() -> (r: Self)
        ensures
            r == Decision::Prompt,
    {
        Decision::Prompt
    }
}

/// The preference-store key under which a decision is persisted.
pub fn pref_key(origin: &str, kind: PermissionKind) -> (r: String)
    ensures
        r@ == "perms::"@ + origin@ + "::"@ + kind_name(kind),
{
    let mut out = String::new();
    out.append("perms::");
    out.append(origin);
    out.append("::");
    out.append(kind.as_str());
    out
}

/// The decision stored for `(origin, kind)`, scanning newest entries
/// first, if any.
pub open spec fn find_perm(
    s: Seq<(String, PermissionKind, Decision)>,
    origin: Seq<char>,
    kind: PermissionKind,
) -> Option<Decision>
    decreases s.len(),
{
    if s.len() == 0 {
        None
    } else if s.last().0@ == origin && s.last().1 == kind {
        Some(s.last().2)
    } else {
        find_perm(s.drop_last(), origin, kind)
    }
}

/// `s` with every entry for `(origin, kind)` removed.
pub open spec fn remove_perm(
    s: Seq<(String, PermissionKind, Decision)>,
    origin: Seq<char>,
    kind: PermissionKind,
) -> Seq<(String, PermissionKind, Decision)>
    decreases s.len(),
{
    if s.len() == 0 {
        s
    } else if s.last().0@ == origin && s.last().1 == kind {
        remove_perm(s.drop_last(), origin, kind)
    } else {
        remove_perm(s.drop_last(), origin, kind).push(s.last())
    }
}

/// After [`remove_perm`], no decision is stored for the removed key.
pub proof fn lemma_remove_perm_gone(
    s: Seq<(String, PermissionKind, Decision)>,
    origin: Seq<char>,
    kind: PermissionKind,
)
    ensures
        find_perm(remove_perm(s, origin, kind), origin, kind) is None,
    decreases s.len(),
{
    if s.len() > 0 {
        lemma_remove_perm_gone(s.drop_last(), origin, kind);
        if !(s.last().0@ == origin && s.last().1 == kind) {
            let r = remove_perm(s.drop_last(), origin, kind).push(s.last());
            assert(r.drop_last() =~= remove_perm(s.drop_last(), origin, kind));
        }
    }
}

/// [`remove_perm`] leaves every other key's decision unchanged.
pub proof fn lemma_remove_perm_keeps(
    s: Seq<(String, PermissionKind, Decision)>,
    origin: Seq<char>,
    kind: PermissionKind,
    other: Seq<char>,
    other_kind: PermissionKind,
)
    requires
        !(other == origin && other_kind == kind),
    ensures
        find_perm(remove_perm(s, origin, kind), other, other_kind) == find_perm(
            s,
            other,
            other_kind,
        ),
    decreases s.len(),
{
    if s.len() > 0 {
        lemma_remove_perm_keeps(s.drop_last(), origin, kind, other, other_kind);
        if !(s.last().0@ == origin && s.last().1 == kind) {
            let r = remove_perm(s.drop_last(), origin, kind).push(s.last());
            assert(r.drop_last() =~= remove_perm(s.drop_last(), origin, kind));
            assert(r.last() == s.last());
        }
    }
}

/// In-memory store of per-origin permission decisions.
#[derive(Debug)]
pub struct PermissionManager {
    store: Vec<(String, PermissionKind, Decision)>,
    default_decision: Decision,
}

impl PermissionManager {
    /// The stored decisions, oldest first.
    pub closed spec fn store_seq(&self) -> Seq<(String, PermissionKind, Decision)> {
        self.store@
    }

    /// The decision used when none is stored.
    pub closed spec fn default_spec(&self) -> Decision {
        self.default_decision
    }

    /// What `check` answers for `(origin, kind)`.
    pub open spec fn decision_of(&self, origin: Seq<char>, kind: PermissionKind) -> Decision {
        match find_perm(self.store_seq(), origin, kind) {
            Some(d) => d,
            None => self.default_spec(),
        }
    }

    /// An empty manager that answers `Prompt` by default.
    pub fn new() -> (r: PermissionManager)
        ensures
            r.store_seq().len() == 0,
            r.default_spec() == Decision::Prompt,
    {
        PermissionManager { store: Vec::new(), default_decision: Decision::Prompt }
    }

    /// Change the decision used for origins without a stored one.
    pub fn set_default(&mut self, decision: Decision)
        ensures
            final(self).store_seq() == old(self).store_seq(),
            final(self).default_spec() == decision,
    {
        self.default_decision = decision;
    }

    /// The stored decision for `(origin, kind)`, or the default when
    /// none is stored.
    pub fn check(&self, origin: &str, kind: PermissionKind) -> (r: Decision)
        ensures
            r == self.decision_of(origin@, kind),
    {
        match self.lookup(origin, kind) {
            Some(d) => d,
            None => self.default_decision,
        }
    }

    /// Store `Allow` for `(origin, kind)`; other keys are untouched.
    pub fn grant(&mut self, origin: &str, kind: PermissionKind)
        ensures
            final(self).decision_of(origin@, kind) == Decision::Allow,
            forall|o: Seq<char>, k: PermissionKind|
                !(o == origin@ && k == kind) ==> final(self).decision_of(o, k) == old(
                    self,
                ).decision_of(o, k),
            final(self).default_spec() == old(self).default_spec(),
    {
        self.store.push((origin.to_owned(), kind, Decision::Allow));
        proof {
            assert(self.store_seq().drop_last() =~= old(self).store_seq());
            self.lemma_after_push(old(self), origin@, kind);
        }
    }

    /// Store `Deny` for `(origin, kind)`; other keys are untouched.
    pub fn deny(&mut self, origin: &str, kind: PermissionKind)
        ensures
            final(self).decision_of(origin@, kind) == Decision::Deny,
            forall|o: Seq<char>, k: PermissionKind|
                !(o == origin@ && k == kind) ==> final(self).decision_of(o, k) == old(
                    self,
                ).decision_of(o, k),
            final(self).default_spec() == old(self).default_spec(),
    {
        self.store.push((origin.to_owned(), kind, Decision::Deny));
        proof {
            assert(self.store_seq().drop_last() =~= old(self).store_seq());
            self.lemma_after_push(old(self), origin@, kind);
        }
    }

    proof fn lemma_after_push(
        &self,
        prev: &PermissionManager,
        origin: Seq<char>,
        kind: PermissionKind,
    )
        requires
            self.store_seq().len() == prev.store_seq().len() + 1,
            self.store_seq().drop_last() == prev.store_seq(),
            self.store_seq().last().0@ == origin,
            self.store_seq().last().1 == kind,
        ensures
            find_perm(self.store_seq(), origin, kind) == Some(self.store_seq().last().2),
            forall|o: Seq<char>, k: PermissionKind|
                !(o == origin && k == kind) ==> find_perm(self.store_seq(), o, k) == find_perm(
                    prev.store_seq(),
                    o,
                    k,
                ),
    {
        assert forall|o: Seq<char>, k: PermissionKind| !(o == origin && k == kind) implies find_perm(
            self.store_seq(),
            o,
            k,
        ) == find_perm(prev.store_seq(), o, k) by {
            assert(!(self.store_seq().last().0@ == o && self.store_seq().last().1 == k));
        }
    }

    /// Drop the stored decision for `(origin, kind)`, returning what
    /// was stored; the default applies afterwards.
    #[verifier::loop_isolation(false)]
    pub fn revoke(&mut self, origin: &str, kind: PermissionKind) -> (r: Option<Decision>)
        ensures
            r == find_perm(old(self).store_seq(), origin@, kind),
            final(self).store_seq() == remove_perm(old(self).store_seq(), origin@, kind),
            final(self).decision_of(origin@, kind) == final(self).default_spec(),
            forall|o: Seq<char>, k: PermissionKind|
                !(o == origin@ && k == kind) ==> final(self).decision_of(o, k) == old(
                    self,
                ).decision_of(o, k),
            final(self).default_spec() == old(self).default_spec(),
    {
        let prev = self.lookup(origin, kind);
        let n = self.store.len();
        let mut out: Vec<(String, PermissionKind, Decision)> = Vec::new();
        for i in 0..n
            invariant
                out@ == remove_perm(self.store@.take(i as int), origin@, kind),
        {
            let entry = &self.store[i];
            proof {
                assert(self.store@.take(i + 1).last() == self.store@[i as int]);
                assert(self.store@.take(i + 1).drop_last() =~= self.store@.take(i as int));
            }
            if !(str_eq(entry.0.as_str(), origin) && entry.1 == kind) {
                let copied = (entry.0.clone(), entry.1, entry.2);
                proof {
                    assert(copied == self.store@[i as int]);
                }
                out.push(copied);
            }
        }
        proof {
            assert(self.store@.take(n as int) =~= self.store@);
        }
        self.store = out;
        proof {
            lemma_remove_perm_gone(old(self).store_seq(), origin@, kind);
            assert forall|o: Seq<char>, k: PermissionKind| !(o == origin@ && k == kind) implies
                self.decision_of(o, k) == old(self).decision_of(o, k) by {
                lemma_remove_perm_keeps(old(self).store_seq(), origin@, kind, o, k);
            }
        }
        prev
    }

    /// The stored decision for `(origin, kind)`, if any.
    #[verifier::loop_isolation(false)]
    fn lookup(&self, origin: &str, kind: PermissionKind) -> (r: Option<Decision>)
        ensures
            r == find_perm(self.store_seq(), origin@, kind),
    {
        let n = self.store.len();
        let mut j = n;
        proof {
            assert(self.store@.take(n as int) =~= self.store@);
        }
        while j > 0
            invariant
                j <= n,
                find_perm(self.store@, origin@, kind) == find_perm(
                    self.store@.take(j as int),
                    origin@,
                    kind,
                ),
            decreases j,
        {
            let entry = &self.store[j - 1];
            proof {
                assert(self.store@.take(j as int).last() == self.store@[j - 1]);
                assert(self.store@.take(j as int).drop_last() =~= self.store@.take(j - 1));
            }
            if str_eq(entry.0.as_str(), origin) && entry.1 == kind {
                return Some(entry.2);
            }
            j = j - 1;
        }
        None
    }
}

} // verus!
