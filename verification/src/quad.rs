//! The flat quad entity: two triangles covering a unit square.

use vstd::prelude::*;

verus! {

use crate::math::SCALE;
use crate::shader_controller::ShaderType;

/// The flat quad: its shader tag and the static geometry the device holds
/// in its buffers.
pub struct Quad {
    pub shader_type: ShaderType,
    pub vertices: Vec<i64>,
    pub indices: Vec<u16>,
    pub rect_index_array_length: usize,
}

impl Quad {
    /// The quad's geometry is the fixed unit square: four corner positions
    /// (x, y pairs) and six indices forming its two triangles.
    pub open spec fn wf(self) -> bool {
        &&& self.vertices@ == seq![0i64, SCALE, 0i64, 0i64, SCALE, SCALE, SCALE, 0i64]
        &&& self.indices@ == seq![0u16, 1u16, 2u16, 2u16, 1u16, 3u16]
        &&& self.rect_index_array_length == 6
    }

    /// Build the unit-square quad.
    pub fn new(shader_type: ShaderType) -> (q: Quad)
        ensures
            q.wf(),
            q.shader_type == shader_type,
    {
        let mut vertices: Vec<i64> = Vec::new();
        vertices.push(0);
        vertices.push(SCALE);
        vertices.push(0);
        vertices.push(0);
        vertices.push(SCALE);
        vertices.push(SCALE);
        vertices.push(SCALE);
        vertices.push(0);

        let mut indices: Vec<u16> = Vec::new();
        indices.push(0);
        indices.push(1);
        indices.push(2);
        indices.push(2);
        indices.push(1);
        indices.push(3);

        proof {
            assert(vertices@ =~= seq![0i64, SCALE, 0i64, 0i64, SCALE, SCALE, SCALE, 0i64]);
            assert(indices@ =~= seq![0u16, 1u16, 2u16, 2u16, 1u16, 3u16]);
        }
        Quad { shader_type, vertices, indices, rect_index_array_length: 6 }
    }
}

} // verus!
