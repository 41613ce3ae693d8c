//! Compositor bookkeeping: which surface belongs to which tab, and a
//! frame counter.

use std::collections::HashMap;
use vstd::prelude::*;

use crate::tabs::TabId;

verus! {

broadcast use vstd::std_specs::hash::group_hash_axioms;

/// Handle of one compositing surface.
#[derive(Debug, Clone, Copy, PartialEq, Eq, Hash, Structural)]
pub struct SurfaceHandle {
    /// Identifier of the surface.
    pub id: u64,
    /// Width in pixels.
    pub width: u32,
    /// Height in pixels.
    pub height: u32,
}

impl SurfaceHandle {
    /// Build a handle from its parts.
    pub fn new(id: u64, width: u32, height: u32) -> (r: SurfaceHandle)
        ensures
            r == (SurfaceHandle { id, width, height }),
    {
        SurfaceHandle { id, width, height }
    }
}

/// Tracks the active surfaces by tab and counts rendered frames.
#[derive(Debug)]
pub struct GpuCompositor {
    surfaces: HashMap<TabId, SurfaceHandle>,
    frame_seq: u64,
}

impl GpuCompositor {
    /// The surfaces held, as a map from tab to handle.
    pub closed spec fn surface_map(&self) -> Map<TabId, SurfaceHandle> {
        self.surfaces@
    }

    /// Number of frames rendered so far.
    pub closed spec fn frames(&self) -> u64 {
        self.frame_seq
    }

    /// An empty compositor.
    pub fn new() -> (r: GpuCompositor)
        ensures
            r.surface_map() == Map::<TabId, SurfaceHandle>::empty(),
            r.frames() == 0,
    {
        GpuCompositor { surfaces: HashMap::new(), frame_seq: 0 }
    }

    /// Attach (or replace) the surface of a tab.
    pub fn add_surface(&mut self, tab: TabId, handle: SurfaceHandle)
        ensures
            final(self).surface_map() == old(self).surface_map().insert(tab, handle),
            final(self).frames() == old(self).frames(),
    {
        self.surfaces.insert(tab, handle);
    }

    /// Detach the surface of a tab, returning it when one was attached.
    pub fn remove_surface(&mut self, tab: TabId) -> (r: Option<SurfaceHandle>)
        ensures
            final(self).surface_map() == old(self).surface_map().remove(tab),
            final(self).frames() == old(self).frames(),
            old(self).surface_map().contains_key(tab) ==> r == Some(
                old(self).surface_map()[tab],
            ),
            !old(self).surface_map().contains_key(tab) ==> r is None,
    {
        self.surfaces.remove(&tab)
    }

    /// Render one frame: advance the frame counter (wrapping) and
    /// report the number of active surfaces.
    pub fn render_frame(&mut self) -> (r: Result<usize, ()>)
        ensures
            final(self).surface_map() == old(self).surface_map(),
            old(self).frames() < u64::MAX ==> final(self).frames() == old(self).frames() + 1,
            old(self).frames() == u64::MAX ==> final(self).frames() == 0,
            r == Ok::<usize, ()>(old(self).surface_map().len() as usize),
    {
        self.frame_seq = self.frame_seq.wrapping_add(1);
        Ok(self.surfaces.len())
    }

    /// Number of frames rendered so far.
    pub fn frames_rendered(&self) -> (r: u64)
        ensures
            r == self.frames(),
    {
        self.frame_seq
    }
}

} // verus!
