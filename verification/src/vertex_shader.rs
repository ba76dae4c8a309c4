//! Vertex shaders: each maps one raw mesh record to a view-space position
//! and an attribute payload. The built-in shader applies a bound rotation
//! and translation and passes the attribute lanes through.

use vstd::prelude::*;

verus! {

use crate::fixed::{fx_mul, fx_mul_spec, FX_ONE};
use crate::fx3::{Fx3, fx3_bounded};
use crate::limits::{MESH_BOUND, ROT_BOUND, TRANS_BOUND, VS_BOUND};
use crate::mesh::{record_attr, record_bounded, record_pos, VertexRecord};
use vstd::math::abs;

/// A column-major three-by-three fixed-point matrix.
#[derive(Clone, Copy, PartialEq, Eq, Structural, Debug)]
pub struct Mat3Fx {
    pub x_axis: Fx3,
    pub y_axis: Fx3,
    pub z_axis: Fx3,
}

/// Every matrix entry's magnitude is at most `m`.
pub open spec fn mat3_bounded(m: Mat3Fx, bound: int) -> bool {
    fx3_bounded(m.x_axis, bound) && fx3_bounded(m.y_axis, bound) && fx3_bounded(m.z_axis, bound)
}

/// One lane of the matrix-vector product: the dot product of a matrix row
/// with the vector.
pub open spec fn mat3_apply_lane(c0: int, c1: int, c2: int, v: Fx3) -> int {
    fx_mul_spec(c0, v.x as int) + fx_mul_spec(c1, v.y as int) + fx_mul_spec(c2, v.z as int)
}

/// The matrix-vector product over the columns, as in `m * v`.
pub open spec fn mat3_apply_spec(m: Mat3Fx, v: Fx3) -> Fx3 {
    Fx3 {
        x: mat3_apply_lane(m.x_axis.x as int, m.y_axis.x as int, m.z_axis.x as int, v) as i64,
        y: mat3_apply_lane(m.x_axis.y as int, m.y_axis.y as int, m.z_axis.y as int, v) as i64,
        z: mat3_apply_lane(m.x_axis.z as int, m.y_axis.z as int, m.z_axis.z as int, v) as i64,
    }
}

pub fn mat3_identity() -> (r: Mat3Fx)
    ensures
        r == (Mat3Fx {
            x_axis: Fx3 { x: FX_ONE, y: 0, z: 0 },
            y_axis: Fx3 { x: 0, y: FX_ONE, z: 0 },
            z_axis: Fx3 { x: 0, y: 0, z: FX_ONE },
        }),
{
    Mat3Fx {
        x_axis: Fx3 { x: FX_ONE, y: 0, z: 0 },
        y_axis: Fx3 { x: 0, y: FX_ONE, z: 0 },
        z_axis: Fx3 { x: 0, y: 0, z: FX_ONE },
    }
}

/// One output lane of `m * v`, with its magnitude bound.
fn mat3_apply_lane_exec(c0: i64, c1: i64, c2: i64, v: &Fx3) -> (r: i64)
    requires
        abs(c0 as int) <= ROT_BOUND as int,
        abs(c1 as int) <= ROT_BOUND as int,
        abs(c2 as int) <= ROT_BOUND as int,
        fx3_bounded(*v, MESH_BOUND as int),
    ensures
        r as int == mat3_apply_lane(c0 as int, c1 as int, c2 as int, *v),
        abs(r as int) <= 0x1800_0000,
{
    proof {
        crate::fixed::lemma_fx_mul_bound(c0 as int, v.x as int, ROT_BOUND as int, MESH_BOUND as int);
        crate::fixed::lemma_fx_mul_bound(c1 as int, v.y as int, ROT_BOUND as int, MESH_BOUND as int);
        crate::fixed::lemma_fx_mul_bound(c2 as int, v.z as int, ROT_BOUND as int, MESH_BOUND as int);
    }
    fx_mul(c0, v.x) + fx_mul(c1, v.y) + fx_mul(c2, v.z)
}

/// A vertex shader: a pure function from one raw mesh record to a
/// view-space position (with `z` the view depth) and an attribute payload.
/// Implementations keep both outputs within the vertex-stage magnitude
/// limit, so the screen-space transform cannot overflow.
pub trait VertexShader: Sized {
    /// Whether the shader's own bound state is usable.
    spec fn wf(&self) -> bool;

    /// The (position, attribute) pair produced for a record.
    spec fn vs_spec(&self, raw: VertexRecord) -> (Fx3, Fx3);

    fn vertex_shader_fn(&self, raw: &VertexRecord) -> (r: (Fx3, Fx3))
        requires
            self.wf(),
            record_bounded(*raw),
        ensures
            r == self.vs_spec(*raw),
            fx3_bounded(r.0, VS_BOUND as int),
            fx3_bounded(r.1, VS_BOUND as int),
    ;
}

/// Rotates and translates the position lanes and passes the attribute
/// lanes through.
#[derive(Clone, Copy, PartialEq, Eq, Structural, Debug)]
pub struct BasicVertexShader {
    pub rotation: Mat3Fx,
    pub translation: Fx3,
}

impl BasicVertexShader {
    pub fn new() -> (r: BasicVertexShader)
        ensures
            r.wf(),
            r.rotation == mat3_identity_spec(),
            r.translation == (Fx3 { x: 0, y: 0, z: 0 }),
    {
        BasicVertexShader { rotation: mat3_identity(), translation: Fx3 { x: 0, y: 0, z: 0 } }
    }

    pub fn bind_rotation(&mut self, rotation: Mat3Fx)
        requires
            mat3_bounded(rotation, ROT_BOUND as int),
        ensures
            final(self).rotation == rotation,
            final(self).translation == old(self).translation,
            old(self).wf() ==> final(self).wf(),
    {
        self.rotation = rotation;
    }

    pub fn bind_translation(&mut self, translation: Fx3)
        requires
            fx3_bounded(translation, TRANS_BOUND as int),
        ensures
            final(self).translation == translation,
            final(self).rotation == old(self).rotation,
            old(self).wf() ==> final(self).wf(),
    {
        self.translation = translation;
    }
}

/// The identity matrix.
pub open spec fn mat3_identity_spec() -> Mat3Fx {
    Mat3Fx {
        x_axis: Fx3 { x: FX_ONE, y: 0, z: 0 },
        y_axis: Fx3 { x: 0, y: FX_ONE, z: 0 },
        z_axis: Fx3 { x: 0, y: 0, z: FX_ONE },
    }
}

/// The position the basic shader produces: `rotation * pos + translation`.
pub open spec fn basic_vs_pos(s: BasicVertexShader, raw: VertexRecord) -> Fx3 {
    let rotated = mat3_apply_spec(s.rotation, record_pos(raw));
    Fx3 {
        x: (rotated.x + s.translation.x) as i64,
        y: (rotated.y + s.translation.y) as i64,
        z: (rotated.z + s.translation.z) as i64,
    }
}

impl VertexShader for BasicVertexShader {
    open spec fn wf(&self) -> bool {
        mat3_bounded(self.rotation, ROT_BOUND as int) && fx3_bounded(
            self.translation,
            TRANS_BOUND as int,
        )
    }

    open spec fn vs_spec(&self, raw: VertexRecord) -> (Fx3, Fx3) {
        (basic_vs_pos(*self, raw), record_attr(raw))
    }

    fn vertex_shader_fn(&self, raw: &VertexRecord) -> (r: (Fx3, Fx3)) {
        let pos = Fx3 { x: raw[0], y: raw[1], z: raw[2] };
        let attr = Fx3 { x: raw[3], y: raw[4], z: raw[5] };
        let rx = mat3_apply_lane_exec(self.rotation.x_axis.x, self.rotation.y_axis.x, self.rotation.z_axis.x, &pos);
        let ry = mat3_apply_lane_exec(self.rotation.x_axis.y, self.rotation.y_axis.y, self.rotation.z_axis.y, &pos);
        let rz = mat3_apply_lane_exec(self.rotation.x_axis.z, self.rotation.y_axis.z, self.rotation.z_axis.z, &pos);
        let out_pos = Fx3 {
            x: rx + self.translation.x,
            y: ry + self.translation.y,
            z: rz + self.translation.z,
        };
        (out_pos, attr)
    }
}

} // verus!
