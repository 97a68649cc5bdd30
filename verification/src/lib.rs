//! A verified model of a small browser-canvas rendering demo: shared render
//! state driven by mouse input, a shader registry with memoized uniform
//! lookups, and two renderable entities (a flat quad and an animated
//! height-field mesh).
//!
//! All geometry and state is modelled in fixed-point integers (micro-units:
//! one unit of world space is `math::SCALE`).  The unverified device layer
//! converts these to floating point at the boundary, executes the draw calls
//! the client emits, and feeds input events back into the client's state.

pub mod app_state;
pub mod entity;
pub mod graph3d;
pub mod math;
pub mod quad;
pub mod shader;
pub mod shader_controller;

use vstd::prelude::*;

verus! {

use crate::app_state::spec_initial_state;
use crate::app_state::update_app_state;
use crate::app_state::AppState;
use crate::app_state::DIM_MAX;
use crate::app_state::TIME_MAX;
use crate::entity::draw_call_matches;
use crate::entity::DrawCall;
use crate::entity::Entity;
use crate::entity::Vec3Fx;
use crate::graph3d::Graph3d;
use crate::math::SCALE;
use crate::quad::Quad;
use crate::shader::Shader;
use crate::shader_controller::ShaderController;
use crate::shader_controller::ShaderType;

/// The draw plan of an entity list against a registry: for each entity whose
/// shader is registered, in list order, its position in the list and whether
/// binding its shader switches the device program.
pub open spec fn spec_plan(entities: Seq<Entity>, c: ShaderController) -> Seq<(int, bool)>
    decreases entities.len(),
{
    if entities.len() == 0 {
        Seq::empty()
    } else {
        let pre = spec_plan(entities.drop_last(), c);
        let e = entities.last();
        if c.has_shader(e.shader_type_spec()) {
            pre.push(
                (
                    entities.len() - 1,
                    spec_plan_active(entities.drop_last(), c) != e.shader_type_spec(),
                ),
            )
        } else {
            pre
        }
    }
}

/// The shader type active after the entity list is drawn: that of the last
/// drawn entity, or the initially active one if nothing was drawn.
pub open spec fn spec_plan_active(entities: Seq<Entity>, c: ShaderController) -> ShaderType
    decreases entities.len(),
{
    if entities.len() == 0 {
        c.active_shader
    } else if c.has_shader(entities.last().shader_type_spec()) {
        entities.last().shader_type_spec()
    } else {
        spec_plan_active(entities.drop_last(), c)
    }
}

/// How many entities of the list have a registered shader.
pub open spec fn spec_registered_count(entities: Seq<Entity>, c: ShaderController) -> int
    decreases entities.len(),
{
    if entities.len() == 0 {
        0
    } else {
        spec_registered_count(entities.drop_last(), c) + if c.has_shader(
            entities.last().shader_type_spec(),
        ) {
            1int
        } else {
            0int
        }
    }
}

/// A render pass emits exactly one draw call per entity whose shader is
/// registered.
pub proof fn lemma_plan_length(entities: Seq<Entity>, c: ShaderController)
    ensures
        spec_plan(entities, c).len() == spec_registered_count(entities, c),
    decreases entities.len(),
{
    if entities.len() > 0 {
        lemma_plan_length(entities.drop_last(), c);
    }
}

/// Every draw-plan step points at an entity of the list.
pub proof fn lemma_plan_indices(entities: Seq<Entity>, c: ShaderController)
    ensures
        forall|k: int|
            0 <= k < spec_plan(entities, c).len() ==> 0 <= (#[trigger] spec_plan(entities, c)[k]).0
                < entities.len(),
    decreases entities.len(),
{
    if entities.len() > 0 {
        lemma_plan_indices(entities.drop_last(), c);
        let pre = spec_plan(entities.drop_last(), c);
        let plan = spec_plan(entities, c);
        assert forall|k: int| 0 <= k < plan.len() implies 0 <= (#[trigger] plan[k]).0
            < entities.len() by {
            if k < pre.len() {
                assert(plan[k] == pre[k]);
                assert(0 <= pre[k].0 < entities.drop_last().len());
            }
        }
    }
}

/// The client driver: it owns the render state, the shader registry, and
/// the entity list (insertion order is draw order).
pub struct WebGlClient {
    pub entities: Vec<Entity>,
    pub shader_controller: ShaderController,
    pub state: AppState,
}

impl WebGlClient {
    /// The client's pieces are each well-formed.
    pub open spec fn wf(self) -> bool {
        &&& self.state.wf()
        &&& self.shader_controller.wf()
        &&& forall|k: int| 0 <= k < self.entities@.len() ==> #[trigger] self.entities@[k].wf()
    }

    /// Build the scene: a flat quad and a 100-cell height-field mesh, with
    /// whichever programs the device could link, and the startup state.
    pub fn new(basic_shader: Option<Shader>, graph3d_shader: Option<Shader>) -> (c: WebGlClient)
        requires
            basic_shader matches Some(s) ==> s.wf(),
            graph3d_shader matches Some(s) ==> s.wf(),
        ensures
            c.wf(),
            c.state == spec_initial_state(),
            c.shader_controller == (ShaderController {
                basic_shader: basic_shader,
                graph3d_shader: graph3d_shader,
                active_shader: ShaderType::BasicShader,
            }),
            c.entities@.len() == 2,
            c.entities@[0] matches Entity::Quad(q) && q.wf() && q.shader_type
                == ShaderType::BasicShader,
            c.entities@[1] matches Entity::Graph3d(g) && g.wf() && g.n == 100 && g.shader_type
                == ShaderType::Graph3dShader && g.vertices_match() && g.indices_match(),
    {
        let quad = Quad::new(ShaderType::BasicShader);
        let graph3d = Graph3d::new(ShaderType::Graph3dShader, 100);
        let mut entities: Vec<Entity> = Vec::new();
        entities.push(Entity::Quad(quad));
        entities.push(Entity::Graph3d(graph3d));
        WebGlClient {
            entities,
            shader_controller: ShaderController::new(basic_shader, graph3d_shader),
            state: AppState::new(),
        }
    }

    /// Record the per-frame state (time and canvas size) and give each
    /// entity its (stateless) update.
    pub fn update(&mut self, time: i64, height: i64, width: i64) -> (r: Result<(), ()>)
        requires
            old(self).wf(),
            0 <= time <= TIME_MAX,
            0 <= width <= DIM_MAX,
            0 <= height <= DIM_MAX,
        ensures
            r is Ok,
            final(self).wf(),
            final(self).state == (AppState {
                time: time,
                canvas_width: width,
                canvas_height: height,
                ..old(self).state
            }),
            final(self).entities == old(self).entities,
            final(self).shader_controller == old(self).shader_controller,
    {
        update_app_state(&mut self.state, time, width, height);
        let n: usize = self.entities.len();
        let mut i: usize = 0;
        while i < n
            invariant
                n == self.entities@.len(),
            decreases n - i,
        {
            self.entities[i].update(time);
            i += 1;
        }
        Ok(())
    }

    /// Draw the frame: emit one draw call per entity with a registered
    /// shader, in list order, every entity at the origin with identity
    /// rotation and unit scale.  The device layer first clears the frame,
    /// then executes the calls in order.
    pub fn render(&mut self) -> (calls: Vec<DrawCall>)
        requires
            old(self).wf(),
        ensures
            final(self).wf(),
            final(self).entities == old(self).entities,
            final(self).state == old(self).state,
            final(self).shader_controller.basic_shader == old(self).shader_controller.basic_shader,
            final(self).shader_controller.graph3d_shader == old(
                self,
            ).shader_controller.graph3d_shader,
            final(self).shader_controller.active_shader == spec_plan_active(
                old(self).entities@,
                old(self).shader_controller,
            ),
            calls@.len() == spec_plan(old(self).entities@, old(self).shader_controller).len(),
            forall|k: int|
                0 <= k < calls@.len() ==> {
                    let step = spec_plan(old(self).entities@, old(self).shader_controller)[k];
                    &&& 0 <= step.0 < old(self).entities@.len()
                    &&& draw_call_matches(
                        #[trigger] calls@[k],
                        old(self).entities@[step.0],
                        step.1,
                        old(self).state,
                        Vec3Fx { x: 0, y: 0, z: 0 },
                        Vec3Fx { x: 0, y: 0, z: 0 },
                        Vec3Fx { x: SCALE, y: SCALE, z: SCALE },
                    )
                },
    {
        let ghost c0 = self.shader_controller;
        let ghost all_vec = self.entities;
        let ghost all = self.entities@;
        let position = Vec3Fx { x: 0, y: 0, z: 0 };
        let rotation = Vec3Fx { x: 0, y: 0, z: 0 };
        let scale = Vec3Fx { x: SCALE, y: SCALE, z: SCALE };
        let mut calls: Vec<DrawCall> = Vec::new();
        let n: usize = self.entities.len();
        let mut i: usize = 0;
        while i < n
            invariant
                self.wf(),
                n == self.entities@.len(),
                i <= n,
                position == (Vec3Fx { x: 0, y: 0, z: 0 }),
                rotation == (Vec3Fx { x: 0, y: 0, z: 0 }),
                scale == (Vec3Fx { x: SCALE, y: SCALE, z: SCALE }),
                self.entities == all_vec,
                self.entities@ == all,
                self.state == old(self).state,
                self.shader_controller.basic_shader == c0.basic_shader,
                self.shader_controller.graph3d_shader == c0.graph3d_shader,
                self.shader_controller.active_shader == spec_plan_active(all.take(i as int), c0),
                calls@.len() == spec_plan(all.take(i as int), c0).len(),
                forall|k: int|
                    0 <= k < calls@.len() ==> {
                        let step = spec_plan(all.take(i as int), c0)[k];
                        draw_call_matches(
                            #[trigger] calls@[k],
                            all[step.0],
                            step.1,
                            old(self).state,
                            Vec3Fx { x: 0, y: 0, z: 0 },
                            Vec3Fx { x: 0, y: 0, z: 0 },
                            Vec3Fx { x: SCALE, y: SCALE, z: SCALE },
                        )
                    },
            decreases n - i,
        {
            let ghost pre_plan = spec_plan(all.take(i as int), c0);
            let ghost pre_calls = calls@;
            proof {
                assert(all.take(i as int + 1).drop_last() =~= all.take(i as int));
                assert(all.take(i as int + 1).last() == all[i as int]);
                assert(self.entities@[i as int].wf());
            }
            let r = self.entities[i].render(
                &mut self.shader_controller,
                &self.state,
                position,
                rotation,
                scale,
            );
            match r {
                Some(call) => {
                    calls.push(call);
                },
                None => {},
            }
            proof {
                let plan1 = spec_plan(all.take(i as int + 1), c0);
                if c0.has_shader(all[i as int].shader_type_spec()) {
                    assert(plan1 == pre_plan.push(
                        (
                            i as int,
                            spec_plan_active(all.take(i as int), c0) != all[
                                i as int
                            ].shader_type_spec(),
                        ),
                    ));
                } else {
                    assert(plan1 == pre_plan);
                    assert(calls@ == pre_calls);
                }
                assert forall|k: int| 0 <= k < calls@.len() implies {
                    let step = plan1[k];
                    draw_call_matches(
                        #[trigger] calls@[k],
                        all[step.0],
                        step.1,
                        old(self).state,
                        Vec3Fx { x: 0, y: 0, z: 0 },
                        Vec3Fx { x: 0, y: 0, z: 0 },
                        Vec3Fx { x: SCALE, y: SCALE, z: SCALE },
                    )
                } by {
                    if k < pre_calls.len() {
                        assert(calls@[k] == pre_calls[k]);
                        assert(plan1[k] == pre_plan[k]);
                    }
                }
            }
            i += 1;
        }
        proof {
            assert(all.take(n as int) =~= all);
            lemma_plan_indices(old(self).entities@, old(self).shader_controller);
        }
        calls
    }
}

} // verus!
