//! The depth buffer: one reciprocal-depth cell per pixel, higher is nearer.
//!
//! Cells hold fixed-point `1/z_view`; the far sentinel is 0, so any
//! positive reciprocal depth wins. The vector carries one extra stamp of
//! padding cells past the last pixel so that the 8-wide test-and-set may
//! always load a full stamp; masked-off lanes keep their old value, so the
//! padding never changes observably.

use vstd::prelude::*;

verus! {

/// The far sentinel every cell is cleared to.
pub const DEPTH_FAR: i64 = 0;

/// The width of the 8-pixel stamp the rasterizer works in.
pub const STAMP_WIDTH: usize = 8;

pub struct DepthBuffer {
    pub depth_buffer: Vec<i64>,
}

/// The merge a depth test performs: the nearer (greater) of the incumbent
/// and the candidate.
pub open spec fn depth_merge(prev: i64, cand: i64) -> i64 {
    if cand > prev {
        cand
    } else {
        prev
    }
}

impl DepthBuffer {
    pub fn new(pixel_count: usize) -> (r: DepthBuffer)
        requires
            pixel_count + STAMP_WIDTH <= usize::MAX,
        ensures
            r.depth_buffer@.len() == pixel_count + STAMP_WIDTH,
            forall|i: int| 0 <= i < r.depth_buffer@.len() ==> r.depth_buffer@[i] == DEPTH_FAR,
    {
        let mut cells: Vec<i64> = Vec::new();
        let n = pixel_count + STAMP_WIDTH;
        let mut i: usize = 0;
        while i < n
            invariant
                i == cells@.len() <= n,
                forall|j: int| 0 <= j < i ==> cells@[j] == DEPTH_FAR,
            decreases n - i,
        {
            cells.push(DEPTH_FAR);
            i = i + 1;
        }
        DepthBuffer { depth_buffer: cells }
    }

    /// Resets every cell to the far sentinel.
    pub fn clear(&mut self)
        ensures
            final(self).depth_buffer@.len() == old(self).depth_buffer@.len(),
            forall|i: int|
                0 <= i < final(self).depth_buffer@.len() ==> final(self).depth_buffer@[i]
                    == DEPTH_FAR,
    {
        let n = self.depth_buffer.len();
        let mut i: usize = 0;
        while i < n
            invariant
                i <= n == self.depth_buffer@.len(),
                forall|j: int| 0 <= j < i ==> self.depth_buffer@[j] == DEPTH_FAR,
            decreases n - i,
        {
            self.depth_buffer[i] = DEPTH_FAR;
            i = i + 1;
        }
    }

    /// Scalar depth test-and-set: installs `depth` at `index` and reports
    /// success exactly when it is nearer than the incumbent.
    pub fn try_set_depth(&mut self, index: usize, depth: i64) -> (r: bool)
        requires
            index < old(self).depth_buffer@.len(),
        ensures
            r == (depth > old(self).depth_buffer@[index as int]),
            final(self).depth_buffer@ == old(self).depth_buffer@.update(
                index as int,
                depth_merge(old(self).depth_buffer@[index as int], depth),
            ),
    {
        let prev = self.depth_buffer[index];
        if depth > prev {
            self.depth_buffer[index] = depth;
            true
        } else {
            proof {
                assert(self.depth_buffer@ =~= self.depth_buffer@.update(
                    index as int,
                    depth_merge(prev, depth),
                ));
            }
            false
        }
    }

    /// 8-wide depth test-and-set over the contiguous cells starting at
    /// `index`: merges each lane with the incumbent (keeping the maximum)
    /// and returns the lane mask of strict wins, or `None` when no lane
    /// won.
    pub fn try_set_depth_simd(&mut self, index: usize, depths: &[i64; 8]) -> (r: Option<
        [bool; 8],
    >)
        requires
            index + STAMP_WIDTH <= old(self).depth_buffer@.len(),
        ensures
            final(self).depth_buffer@.len() == old(self).depth_buffer@.len(),
            forall|l: int|
                0 <= l < 8 ==> final(self).depth_buffer@[index + l] == depth_merge(
                    old(self).depth_buffer@[index + l],
                    depths@[l],
                ),
            forall|j: int|
                0 <= j < old(self).depth_buffer@.len() && !(index <= j < index + 8)
                    ==> final(self).depth_buffer@[j] == old(self).depth_buffer@[j],
            match r {
                Some(mask) => forall|l: int|
                    0 <= l < 8 ==> mask@[l] == (depths@[l] > old(self).depth_buffer@[index + l]),
                None => forall|l: int|
                    0 <= l < 8 ==> !(depths@[l] > old(self).depth_buffer@[index + l]),
            },
    {
        let ghost pre = self.depth_buffer@;
        let n = self.depth_buffer.len();
        let mut mask: [bool; 8] = [false, false, false, false, false, false, false, false];
        let mut any: bool = false;
        let mut l: usize = 0;
        while l < 8
            invariant
                0 <= l <= 8,
                index + STAMP_WIDTH <= n == pre.len(),
                self.depth_buffer@.len() == pre.len(),
                forall|k: int| l <= k < 8 ==> mask@[k] == false,
                forall|k: int|
                    l <= k < 8 ==> self.depth_buffer@[#[trigger] (index + k)] == pre[index + k],
                forall|k: int|
                    0 <= k < l ==> self.depth_buffer@[index + k] == depth_merge(
                        pre[index + k],
                        depths@[k],
                    ),
                forall|j: int|
                    0 <= j < pre.len() && !(index <= j < index + 8) ==> self.depth_buffer@[j]
                        == pre[j],
                forall|k: int| 0 <= k < l ==> mask@[k] == (depths@[k] > pre[index + k]),
                any == exists|k: int| 0 <= k < l && depths@[k] > pre[index + k],
            decreases 8 - l,
        {
            let prev = self.depth_buffer[index + l];
            let d = depths[l];
            if d > prev {
                self.depth_buffer[index + l] = d;
                mask[l] = true;
                any = true;
            }
            l = l + 1;
        }
        if any {
            Some(mask)
        } else {
            None
        }
    }
}

} // verus!
