//! Frame statistics counters.

use vstd::prelude::*;

verus! {

pub struct FuwaStats {
    pub total_vertices: u32,
    pub total_triangles: u32,
    pub culled_triangles: u32,
    pub draw_calls: u32,
}

impl FuwaStats {
    pub fn new() -> (r: FuwaStats)
        ensures
            r.total_vertices == 0,
            r.total_triangles == 0,
            r.culled_triangles == 0,
            r.draw_calls == 0,
    {
        FuwaStats { total_vertices: 0, total_triangles: 0, culled_triangles: 0, draw_calls: 0 }
    }

    /// Zeroes the per-frame counters; the draw-call count is cumulative.
    pub fn reset(&mut self)
        ensures
            final(self).total_vertices == 0,
            final(self).total_triangles == 0,
            final(self).culled_triangles == 0,
            final(self).draw_calls == old(self).draw_calls,
    {
        self.total_vertices = 0;
        self.total_triangles = 0;
        self.culled_triangles = 0;
    }
}

} // verus!
