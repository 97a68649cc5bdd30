//! The renderable entities: the closed set of drawable things, and the draw
//! call a render pass emits for each of them.
//!
//! Rendering is split at the device boundary: the verified side decides what
//! to draw (which program to bind, whether binding must switch programs,
//! which dynamic buffers to upload, with what content) and hands the device
//! layer one `DrawCall` per drawn entity.

use vstd::prelude::*;

verus! {

use crate::app_state::AppState;
use crate::graph3d::Graph3d;
use crate::quad::Quad;
use crate::shader_controller::spec_use_shader;
use crate::shader_controller::spec_use_shader_switches;
use crate::shader_controller::ShaderController;
use crate::shader_controller::ShaderType;

/// A fixed-point vector of three components.
#[derive(Clone, Copy, Debug, PartialEq, Eq, Structural)]
pub struct Vec3Fx {
    pub x: i64,
    pub y: i64,
    pub z: i64,
}

/// Everything the device layer needs for one indexed triangle draw: the
/// program to use (and whether binding it switches programs), the number of
/// indices, the model transform inputs, the camera rotation, and the
/// freshly computed dynamic buffers for the mesh.
pub struct DrawCall {
    pub shader_type: ShaderType,
    pub index_count: usize,
    pub program_switched: bool,
    pub position: Vec3Fx,
    pub rotation: Vec3Fx,
    pub scale: Vec3Fx,
    pub camera_rotation_x: i64,
    pub camera_rotation_y: i64,
    pub y_values: Option<Vec<i64>>,
    pub normals: Option<Vec<i64>>,
}

/// The closed set of renderable entities.
pub enum Entity {
    Quad(Quad),
    Graph3d(Graph3d),
}

/// The draw call `c` is the one that drawing `e` emits, given that binding
/// `e`'s shader switches programs iff `switched` says so.
pub open spec fn draw_call_matches(
    c: DrawCall,
    e: Entity,
    switched: bool,
    st: AppState,
    position: Vec3Fx,
    rotation: Vec3Fx,
    scale: Vec3Fx,
) -> bool {
    &&& c.shader_type == e.shader_type_spec()
    &&& c.index_count == e.index_len_spec()
    &&& c.program_switched == switched
    &&& c.position == position
    &&& c.rotation == rotation
    &&& c.scale == scale
    &&& c.camera_rotation_x == st.rotation_x
    &&& c.camera_rotation_y == st.rotation_y
    &&& match e {
        Entity::Quad(_) => c.y_values is None && c.normals is None,
        Entity::Graph3d(g) => {
            &&& c.y_values matches Some(y)
            &&& c.normals matches Some(nm)
            &&& g.heights_match(st.time as int, y@)
            &&& g.normals_match(y@, nm@)
        },
    }
}

impl Entity {
    /// The shader type the entity draws with.
    pub open spec fn shader_type_spec(self) -> ShaderType {
        match self {
            Entity::Quad(q) => q.shader_type,
            Entity::Graph3d(g) => g.shader_type,
        }
    }

    /// The length of the entity's static index buffer.
    pub open spec fn index_len_spec(self) -> int {
        match self {
            Entity::Quad(q) => q.rect_index_array_length as int,
            Entity::Graph3d(g) => g.rect_index_array_length as int,
        }
    }

    /// The entity's geometry invariant.
    pub open spec fn wf(self) -> bool {
        match self {
            Entity::Quad(q) => q.wf(),
            Entity::Graph3d(g) => g.wf(),
        }
    }

    /// Entities hold no per-frame simulation state; the call exists for
    /// interface symmetry and changes nothing.
    pub fn update(&self, _time: i64) {
    }

    /// Decide the entity's draw: if its shader is registered, bind it (the
    /// registry records whether the device must switch programs), recompute
    /// the dynamic buffers, and emit the draw call; if not, skip silently.
    pub fn render(
        &self,
        shader_controller: &mut ShaderController,
        state: &AppState,
        position: Vec3Fx,
        rotation: Vec3Fx,
        scale: Vec3Fx,
    ) -> (r: Option<DrawCall>)
        requires
            self.wf(),
            state.wf(),
        ensures
            !old(shader_controller).has_shader(self.shader_type_spec()) ==> {
                &&& r is None
                &&& *final(shader_controller) == *old(shader_controller)
            },
            old(shader_controller).has_shader(self.shader_type_spec()) ==> {
                &&& *final(shader_controller) == spec_use_shader(
                    *old(shader_controller),
                    self.shader_type_spec(),
                )
                &&& r matches Some(c) && draw_call_matches(
                    c,
                    *self,
                    spec_use_shader_switches(*old(shader_controller), self.shader_type_spec()),
                    *state,
                    position,
                    rotation,
                    scale,
                )
            },
    {
        match self {
            Entity::Quad(q) => {
                if shader_controller.get_shader(&q.shader_type).is_some() {
                    let switched = shader_controller.use_shader(q.shader_type);
                    Some(
                        DrawCall {
                            shader_type: q.shader_type,
                            index_count: q.rect_index_array_length,
                            program_switched: switched,
                            position,
                            rotation,
                            scale,
                            camera_rotation_x: state.rotation_x,
                            camera_rotation_y: state.rotation_y,
                            y_values: None,
                            normals: None,
                        },
                    )
                } else {
                    None
                }
            },
            Entity::Graph3d(g) => {
                if shader_controller.get_shader(&g.shader_type).is_some() {
                    let switched = shader_controller.use_shader(g.shader_type);
                    let y_vals = g.get_updated_3d_y_values(state.time);
                    let normals = g.get_grid_normals(&y_vals);
                    Some(
                        DrawCall {
                            shader_type: g.shader_type,
                            index_count: g.rect_index_array_length,
                            program_switched: switched,
                            position,
                            rotation,
                            scale,
                            camera_rotation_x: state.rotation_x,
                            camera_rotation_y: state.rotation_y,
                            y_values: Some(y_vals),
                            normals: Some(normals),
                        },
                    )
                } else {
                    None
                }
            },
        }
    }
}

} // verus!
