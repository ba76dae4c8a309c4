//! Deferred shading storage: a per-pixel fragment key and the grow-only
//! slab of interpolated attribute payloads the keys point into.
//!
//! Shaders consume payloads of differing shape (a color, a UV pair); the
//! slab stores the single widest representation, a three-lane fixed-point
//! vector, as one arena shared by all shaders of a frame. A depth-passing
//! rasterizer write replaces the key at a pixel; the replaced slab entry
//! stays orphaned until the slab is cleared for the next frame.

use vstd::prelude::*;

verus! {

use crate::fx3::Fx3;

/// What a covered pixel defers: which shader to run and where its
/// interpolated payload sits in the slab.
#[derive(Clone, Copy, PartialEq, Eq, Structural, Debug)]
pub struct FragmentKey {
    pub shader_index: usize,
    pub fragment_key: usize,
}

pub struct FragmentBuffer {
    pub fragments: Vec<Option<FragmentKey>>,
}

impl FragmentBuffer {
    pub fn new(pixel_count: usize) -> (r: FragmentBuffer)
        ensures
            r.fragments@.len() == pixel_count,
            forall|i: int| 0 <= i < pixel_count ==> r.fragments@[i] is None,
    {
        let mut slots: Vec<Option<FragmentKey>> = Vec::new();
        let mut i: usize = 0;
        while i < pixel_count
            invariant
                i == slots@.len() <= pixel_count,
                forall|j: int| 0 <= j < i ==> slots@[j] is None,
            decreases pixel_count - i,
        {
            slots.push(None);
            i = i + 1;
        }
        FragmentBuffer { fragments: slots }
    }

    /// Unconditional overwrite of the fragment slot at `index`.
    pub fn set_fragment(&mut self, index: usize, fragment: FragmentKey)
        requires
            index < old(self).fragments@.len(),
        ensures
            final(self).fragments@ == old(self).fragments@.update(index as int, Some(fragment)),
    {
        self.fragments[index] = Some(fragment);
    }

    pub fn get_fragment(&self, index: usize) -> (r: Option<FragmentKey>)
        requires
            index < self.fragments@.len(),
        ensures
            r == self.fragments@[index as int],
    {
        self.fragments[index]
    }

    /// Empties the slot at `index`.
    pub fn clear_fragment(&mut self, index: usize)
        requires
            index < old(self).fragments@.len(),
        ensures
            final(self).fragments@ == old(self).fragments@.update(index as int, None::<
                FragmentKey,
            >),
    {
        self.fragments[index] = None;
    }

    /// Empties every slot.
    pub fn clear(&mut self)
        ensures
            final(self).fragments@.len() == old(self).fragments@.len(),
            forall|i: int|
                0 <= i < final(self).fragments@.len() ==> final(self).fragments@[i] is None,
    {
        let n = self.fragments.len();
        let mut i: usize = 0;
        while i < n
            invariant
                i <= n == self.fragments@.len(),
                forall|j: int| 0 <= j < i ==> self.fragments@[j] is None,
            decreases n - i,
        {
            self.fragments[i] = None;
            i = i + 1;
        }
    }

    pub fn len(&self) -> (r: usize)
        ensures
            r == self.fragments@.len(),
    {
        self.fragments.len()
    }
}

/// Grow-only arena of interpolated attribute payloads, keyed by stable
/// indices; cleared in bulk between frames.
pub struct FragmentSlab {
    pub entries: Vec<Fx3>,
}

impl FragmentSlab {
    pub fn new() -> (r: FragmentSlab)
        ensures
            r.entries@.len() == 0,
    {
        FragmentSlab { entries: Vec::new() }
    }

    /// Stores a payload and returns its fresh key.
    pub fn insert(&mut self, value: Fx3) -> (k: usize)
        ensures
            k == old(self).entries@.len(),
            final(self).entries@ == old(self).entries@.push(value),
    {
        let k = self.entries.len();
        self.entries.push(value);
        k
    }

    pub fn get(&self, k: usize) -> (r: Fx3)
        requires
            k < self.entries@.len(),
        ensures
            r == self.entries@[k as int],
    {
        self.entries[k]
    }

    pub fn len(&self) -> (r: usize)
        ensures
            r == self.entries@.len(),
    {
        self.entries.len()
    }

    /// Drops every payload of the finished frame.
    pub fn clear(&mut self)
        ensures
            final(self).entries@.len() == 0,
    {
        self.entries.clear();
    }
}

} // verus!
