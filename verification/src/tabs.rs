//! Tab bookkeeping: creation, lookup, freezing and closing of tabs.

use std::collections::BTreeMap;
use vstd::prelude::*;

verus! {

broadcast use vstd::std_specs::btree::group_btree_axioms, vstd::laws_cmp::group_laws_cmp;

/// Identifier of one tab.
pub type TabId = u64;

/// State of one tab.
#[derive(Debug, PartialEq, Eq)]
pub struct TabState {
    /// Location shown in the tab.
    pub url: String,
    /// Title of the page, empty until known.
    pub title: String,
    /// The tab is frozen (suspended).
    pub frozen: bool,
}

impl Clone for TabState {
    fn clone(&self) -> (r: Self)
        ensures
            r == *self,
    {
        TabState { url: self.url.clone(), title: self.title.clone(), frozen: self.frozen }
    }
}

/// Failure of a tab operation.
#[derive(Debug, Clone, Copy, PartialEq, Eq, Structural)]
pub enum TabError {
    /// No tab with the given identifier exists.
    NotFound,
}

impl TabError {
    /// Human-readable description of the error.
    pub fn message(&self) -> (r: &'static str)
        ensures
            r@ == "tab not found"@,
    {
        "tab not found"
    }
}

/// The open tabs, keyed by identifier. Identifiers start at 1, advance
/// by one for each tab, and skip 0 when the counter wraps.
#[derive(Debug)]
pub struct TabManager {
    /// The identifier the next tab will get.
    pub next_id: TabId,
    /// The open tabs by identifier.
    pub tabs: BTreeMap<TabId, TabState>,
}

impl TabManager {
    /// The tabs held, as a map from identifier to state.
    pub closed spec fn tab_map(&self) -> Map<TabId, TabState> {
        self.tabs@
    }

    /// The identifier the next tab will get.
    pub closed spec fn next(&self) -> TabId {
        self.next_id
    }

    /// An empty manager; the first tab will get identifier 1.
    pub fn new() -> (r: TabManager)
        ensures
            r.tab_map() == Map::<TabId, TabState>::empty(),
            r.next() == 1,
    {
        TabManager { next_id: 1, tabs: BTreeMap::new() }
    }

    /// Number of open tabs.
    pub fn len(&self) -> (r: usize)
        ensures
            r == self.tab_map().len(),
    {
        self.tabs.len()
    }

    /// Open a tab at `url`: it gets the next identifier, an empty title
    /// and is not frozen. The identifier counter wraps around 0, never
    /// issuing identifier 0.
    pub fn new_tab(&mut self, url: &str) -> (r: TabId)
        ensures
            r == old(self).next(),
            old(self).next() < u64::MAX ==> final(self).next() == old(self).next() + 1,
            old(self).next() == u64::MAX ==> final(self).next() == 1,
            final(self).tab_map().contains_key(r),
            final(self).tab_map()[r].url@ == url@,
            final(self).tab_map()[r].title@.len() == 0,
            !final(self).tab_map()[r].frozen,
            final(self).tab_map().remove(r) == old(self).tab_map().remove(r),
    {
        let id = self.next_id;
        let bumped = self.next_id.wrapping_add(1);
        self.next_id = if bumped < 1 {
            1
        } else {
            bumped
        };
        self.tabs.insert(
            id,
            TabState { url: url.to_owned(), title: String::new(), frozen: false },
        );
        proof {
            assert(self.tab_map().remove(id) =~= old(self).tab_map().remove(id));
        }
        id
    }

    /// Close a tab; fails only when the identifier is unknown.
    pub fn close_tab(&mut self, id: TabId) -> (r: Result<(), TabError>)
        ensures
            old(self).tab_map().contains_key(id) ==> r == Ok::<_, TabError>(()) && final(self).tab_map() == old(self).tab_map().remove(id),
            !old(self).tab_map().contains_key(id) ==> r == Err::<(), _>(TabError::NotFound)
                && final(self).tab_map() == old(self).tab_map(),
            final(self).next() == old(self).next(),
    {
        match self.tabs.remove(&id) {
            Some(_) => Ok(()),
            None => {
                proof {
                    assert(self.tab_map() =~= old(self).tab_map());
                }
                Err(TabError::NotFound)
            },
        }
    }

    /// Freeze a tab and return a copy of its new state; fails only when
    /// the identifier is unknown.
    pub fn freeze_tab(&mut self, id: TabId) -> (r: Result<TabState, TabError>)
        ensures
            !old(self).tab_map().contains_key(id) ==> r == Err::<TabState, _>(TabError::NotFound)
                && final(self).tab_map() == old(self).tab_map(),
            old(self).tab_map().contains_key(id) ==> (r matches Ok(st) && final(self).tab_map().contains_key(id) && final(self).tab_map()[id].frozen && final(self).tab_map()[id].url@ == old(self).tab_map()[id].url@ && final(self).tab_map()[id].title@
                == old(self).tab_map()[id].title@ && st.url@ == old(self).tab_map()[id].url@
                && st.title@ == old(self).tab_map()[id].title@ && st.frozen && final(self).tab_map().remove(id) == old(self).tab_map().remove(id)),
            final(self).next() == old(self).next(),
    {
        match self.tabs.remove(&id) {
            Some(st) => {
                let frozen_state = TabState { url: st.url, title: st.title, frozen: true };
                let out = frozen_state.clone();
                self.tabs.insert(id, frozen_state);
                proof {
                    assert(self.tab_map().remove(id) =~= old(self).tab_map().remove(id));
                }
                Ok(out)
            },
            None => {
                proof {
                    assert(self.tab_map() =~= old(self).tab_map());
                }
                Err(TabError::NotFound)
            },
        }
    }

    /// The state of a tab, when it exists.
    pub fn get(&self, id: TabId) -> (r: Option<&TabState>)
        ensures
            self.tab_map().contains_key(id) ==> (r matches Some(st) && *st == self.tab_map()[id]),
            !self.tab_map().contains_key(id) ==> r is None,
    {
        self.tabs.get(&id)
    }
}

} // verus!
