//! Extension bookkeeping: which extensions are installed, under which
//! identifiers. Running their background modules is the host process's
//! business; what counts as installed is decided here.

use vstd::prelude::*;

verus! {

/// Identifier of one installed extension.
pub type ExtensionId = u64;

/// One installed extension.
#[derive(Debug)]
pub struct InstalledExt {
    /// Identifier assigned at installation.
    pub id: ExtensionId,
    /// Directory the extension was loaded from.
    pub dir: String,
    /// Display name, derived from the directory.
    pub name: String,
}

impl Clone for InstalledExt {
    fn clone(&self) -> (r: Self)
        ensures
            r == *self,
    {
        InstalledExt { id: self.id, dir: self.dir.clone(), name: self.name.clone() }
    }
}

/// Failure of a registry operation.
#[derive(Debug, Clone, Copy, PartialEq, Eq, Structural)]
pub enum ExtensionError {
    /// No extension with the given identifier exists.
    UnknownId,
}

impl ExtensionError {
    /// Human-readable description of the error.
    pub fn message(&self) -> (r: &'static str)
        ensures
            r@ == "unknown extension id"@,
    {
        "unknown extension id"
    }
}

/// An extension with identifier `id` exists in `s`.
pub open spec fn has_ext(s: Seq<InstalledExt>, id: ExtensionId) -> bool {
    exists|i: int| 0 <= i < s.len() && (#[trigger] s[i]).id == id
}

/// `s` without the extensions of identifier `id`.
pub open spec fn without_ext(s: Seq<InstalledExt>, id: ExtensionId) -> Seq<InstalledExt>
    decreases s.len(),
{
    if s.len() == 0 {
        s
    } else if s.last().id == id {
        without_ext(s.drop_last(), id)
    } else {
        without_ext(s.drop_last(), id).push(s.last())
    }
}

/// The installed extensions, in installation order. Identifiers count
/// up from 1 and skip 0 when the counter wraps.
#[derive(Debug)]
pub struct ExtensionRegistry {
    next_id: ExtensionId,
    exts: Vec<InstalledExt>,
}

impl ExtensionRegistry {
    /// The installed extensions, oldest first.
    pub closed spec fn exts_seq(&self) -> Seq<InstalledExt> {
        self.exts@
    }

    /// The installation counter.
    pub closed spec fn counter(&self) -> ExtensionId {
        self.next_id
    }

    /// An empty registry.
    pub fn new() -> (r: ExtensionRegistry)
        ensures
            r.exts_seq().len() == 0,
            r.counter() == 0,
    {
        ExtensionRegistry { next_id: 0, exts: Vec::new() }
    }

    /// Record an installation and return its identifier: the advanced
    /// counter, or 1 when the counter wrapped to 0.
    pub fn register(&mut self, dir: &str, name: &str) -> (r: ExtensionId)
        ensures
            final(self).counter() == (if old(self).counter() < u64::MAX {
                old(self).counter() + 1
            } else {
                0
            }),
            r == (if final(self).counter() == 0 {
                1
            } else {
                final(self).counter()
            }),
            final(self).exts_seq().drop_last() == old(self).exts_seq(),
            final(self).exts_seq().len() == old(self).exts_seq().len() + 1,
            ({
                let e = final(self).exts_seq().last();
                e.id == r && e.dir@ == dir@ && e.name@ == name@
            }),
    {
        self.next_id = self.next_id.wrapping_add(1);
        let id = if self.next_id == 0 {
            1
        } else {
            self.next_id
        };
        self.exts.push(InstalledExt { id, dir: dir.to_owned(), name: name.to_owned() });
        proof {
            assert(self.exts_seq().drop_last() =~= old(self).exts_seq());
        }
        id
    }

    /// Forget an installed extension; fails only when the identifier is
    /// unknown.
    #[verifier::loop_isolation(false)]
    pub fn unload(&mut self, id: ExtensionId) -> (r: Result<(), ExtensionError>)
        ensures
            r == (if has_ext(old(self).exts_seq(), id) {
                Ok::<(), ExtensionError>(())
            } else {
                Err::<(), ExtensionError>(ExtensionError::UnknownId)
            }),
            final(self).exts_seq() == without_ext(old(self).exts_seq(), id),
            final(self).counter() == old(self).counter(),
    {
        let n = self.exts.len();
        let mut out: Vec<InstalledExt> = Vec::new();
        let mut found = false;
        for i in 0..n
            invariant
                out@ == without_ext(self.exts@.take(i as int), id),
                found == (exists|w: int| 0 <= w < i && (#[trigger] self.exts@[w]).id == id),
        {
            let e = &self.exts[i];
            proof {
                assert(self.exts@.take(i + 1).last() == self.exts@[i as int]);
                assert(self.exts@.take(i + 1).drop_last() =~= self.exts@.take(i as int));
            }
            if e.id == id {
                found = true;
                proof {
                    assert((self.exts@[i as int]).id == id);
                }
            } else {
                out.push(e.clone());
            }
        }
        proof {
            assert(self.exts@.take(n as int) =~= self.exts@);
        }
        self.exts = out;
        if found {
            Ok(())
        } else {
            Err(ExtensionError::UnknownId)
        }
    }

    /// Whether an extension with this identifier is installed.
    #[verifier::loop_isolation(false)]
    pub fn is_loaded(&self, id: ExtensionId) -> (r: bool)
        ensures
            r == has_ext(self.exts_seq(), id),
    {
        let n = self.exts.len();
        for i in 0..n
            invariant
                forall|w: int| 0 <= w < i ==> (#[trigger] self.exts@[w]).id != id,
        {
            if self.exts[i].id == id {
                return true;
            }
        }
        false
    }

    /// The identifiers of all installed extensions, in installation
    /// order.
    #[verifier::loop_isolation(false)]
    pub fn list_ids(&self) -> (r: Vec<ExtensionId>)
        ensures
            r@.len() == self.exts_seq().len(),
            forall|i: int| 0 <= i < r@.len() ==> r@[i] == self.exts_seq()[i].id,
    {
        let n = self.exts.len();
        let mut out: Vec<ExtensionId> = Vec::new();
        for i in 0..n
            invariant
                out@.len() == i,
                forall|w: int| 0 <= w < i ==> out@[w] == self.exts@[w].id,
        {
            out.push(self.exts[i].id);
        }
        out
    }

    /// Number of installed extensions.
    pub fn len(&self) -> (r: usize)
        ensures
            r == self.exts_seq().len(),
    {
        self.exts.len()
    }
}

} // verus!
