//! Mesh input: flat vertex records plus an index list, and the descriptor
//! that documents a record's layout.

use vstd::prelude::*;

verus! {

use crate::fx3::{Fx3, fx3_bounded};
use crate::limits::MESH_BOUND;
use vstd::math::abs;

/// One raw vertex record: three position lanes then three attribute lanes,
/// all fixed-point.
pub type VertexRecord = [i64; 6];

/// Every lane of the record is within the mesh magnitude limit.
pub open spec fn record_bounded(r: VertexRecord) -> bool {
    forall|i: int| 0 <= i < 6 ==> abs(r@[i] as int) <= MESH_BOUND as int
}

/// The record's position lanes as a vector.
pub open spec fn record_pos(r: VertexRecord) -> Fx3 {
    Fx3 { x: r@[0], y: r@[1], z: r@[2] }
}

/// The record's attribute lanes as a vector.
pub open spec fn record_attr(r: VertexRecord) -> Fx3 {
    Fx3 { x: r@[3], y: r@[4], z: r@[5] }
}

pub struct IndexedVertexList {
    pub raw_vertex_list: Vec<VertexRecord>,
    pub index_list: Vec<usize>,
}

impl IndexedVertexList {
    /// Indices address existing vertices, three per triangle, and every
    /// record respects the mesh magnitude limit.
    pub open spec fn wf(&self) -> bool {
        &&& forall|i: int|
            0 <= i < self.index_list@.len() ==> self.index_list@[i]
                < self.raw_vertex_list@.len()
        &&& forall|i: int|
            0 <= i < self.raw_vertex_list@.len() ==> record_bounded(self.raw_vertex_list@[i])
        &&& self.index_list@.len() % 3 == 0
    }
}

#[derive(Clone, Copy, PartialEq, Eq, Structural, Debug)]
pub enum VertexDescriptorField {
    Vec2,
    Vec3,
    Vec4,
}

impl VertexDescriptorField {
    /// The number of scalar lanes the field occupies in a record.
    pub open spec fn size_spec(&self) -> int {
        match self {
            VertexDescriptorField::Vec2 => 2,
            VertexDescriptorField::Vec3 => 3,
            VertexDescriptorField::Vec4 => 4,
        }
    }

    pub fn size(&self) -> (r: usize)
        ensures
            r == self.size_spec(),
    {
        match self {
            VertexDescriptorField::Vec2 => 2,
            VertexDescriptorField::Vec3 => 3,
            VertexDescriptorField::Vec4 => 4,
        }
    }
}

/// The total lane count of a sequence of fields.
pub open spec fn fields_stride(s: Seq<VertexDescriptorField>) -> int
    decreases s.len(),
{
    if s.len() == 0 {
        0
    } else {
        fields_stride(s.drop_last()) + s.last().size_spec()
    }
}

pub struct VertexDescriptor {
    pub stride: usize,
    pub position_index: usize,
}

impl VertexDescriptor {
    pub fn new(fields: Vec<VertexDescriptorField>, position_index: usize) -> (r: VertexDescriptor)
        requires
            fields_stride(fields@) <= usize::MAX,
        ensures
            r.stride == fields_stride(fields@),
            r.position_index == position_index,
    {
        let mut stride: usize = 0;
        let mut i: usize = 0;
        while i < fields.len()
            invariant
                0 <= i <= fields@.len(),
                stride == fields_stride(fields@.take(i as int)),
                fields_stride(fields@) <= usize::MAX,
            decreases fields@.len() - i,
        {
            proof {
                lemma_fields_stride_grows(fields@, i as int);
                assert(fields@.take(i + 1).drop_last() == fields@.take(i as int));
                assert(fields@.take(i + 1).last() == fields@[i as int]);
            }
            stride = stride + fields[i].size();
            i = i + 1;
        }
        proof {
            assert(fields@.take(fields@.len() as int) == fields@);
        }
        VertexDescriptor { stride, position_index }
    }
}

/// Stride over a prefix never exceeds the stride over the whole list.
proof fn lemma_fields_stride_grows(s: Seq<VertexDescriptorField>, i: int)
    requires
        0 <= i < s.len(),
    ensures
        fields_stride(s.take(i)) + s[i].size_spec() <= fields_stride(s),
        fields_stride(s.take(i + 1)) == fields_stride(s.take(i)) + s[i].size_spec(),
    decreases s.len() - i,
{
    assert(s.take(i + 1).drop_last() == s.take(i));
    assert(s.take(i + 1).last() == s[i]);
    if i + 1 == s.len() {
        assert(s.take(i + 1) == s);
    } else {
        lemma_fields_stride_grows(s, i + 1);
        lemma_fields_stride_nonneg(s.take(i + 1));
        assert(fields_stride(s.take(i + 1)) <= fields_stride(s));
    }
}

proof fn lemma_fields_stride_nonneg(s: Seq<VertexDescriptorField>)
    ensures
        fields_stride(s) >= 0,
    decreases s.len(),
{
    if s.len() > 0 {
        lemma_fields_stride_nonneg(s.drop_last());
    }
}

} // verus!
