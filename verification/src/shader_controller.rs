//! The shader registry: one optional program per shader type, plus the
//! currently active type, so a bind of the already-active type issues no
//! device call.

use vstd::prelude::*;

verus! {

use crate::shader::Shader;

/// The shader types the scene draws with.
#[derive(Clone, Copy, Debug, PartialEq, Eq, Structural)]
pub enum ShaderType {
    BasicShader,
    Graph3dShader,
}

/// The registry of compiled programs and the record of the active one.
pub struct ShaderController {
    pub basic_shader: Option<Shader>,
    pub graph3d_shader: Option<Shader>,
    pub active_shader: ShaderType,
}

/// The `use_shader` transition: the requested type becomes active.
pub open spec fn spec_use_shader(c: ShaderController, shader_type: ShaderType) -> ShaderController {
    ShaderController { active_shader: shader_type, ..c }
}

/// Whether a `use_shader` call must switch programs on the device.
pub open spec fn spec_use_shader_switches(c: ShaderController, shader_type: ShaderType) -> bool {
    c.active_shader != shader_type
}

impl ShaderController {
    /// Every registered program has a well-formed uniform cache.
    pub open spec fn wf(self) -> bool {
        &&& (self.basic_shader matches Some(s) ==> s.wf())
        &&& (self.graph3d_shader matches Some(s) ==> s.wf())
    }

    /// The registered program of a type, if any.
    pub open spec fn spec_get(self, shader_type: ShaderType) -> Option<Shader> {
        match shader_type {
            ShaderType::BasicShader => self.basic_shader,
            ShaderType::Graph3dShader => self.graph3d_shader,
        }
    }

    /// Whether a program is registered for the type.
    pub open spec fn has_shader(self, shader_type: ShaderType) -> bool {
        self.spec_get(shader_type) is Some
    }

    /// Build the registry; the basic shader starts out active, as the device
    /// is handed that program at startup.
    pub fn new(basic_shader: Option<Shader>, graph3d_shader: Option<Shader>) -> (c: ShaderController)
        requires
            basic_shader matches Some(s) ==> s.wf(),
            graph3d_shader matches Some(s) ==> s.wf(),
        ensures
            c == (ShaderController {
                basic_shader: basic_shader,
                graph3d_shader: graph3d_shader,
                active_shader: ShaderType::BasicShader,
            }),
            c.wf(),
    {
        ShaderController { basic_shader, graph3d_shader, active_shader: ShaderType::BasicShader }
    }

    /// The registered program of a type, if any.
    pub fn get_shader(&self, shader_type: &ShaderType) -> (r: Option<&Shader>)
        ensures
            (r matches Some(s) ==> self.spec_get(*shader_type) == Some(*s)),
            r is Some <==> self.has_shader(*shader_type),
    {
        match shader_type {
            ShaderType::BasicShader => self.basic_shader.as_ref(),
            ShaderType::Graph3dShader => self.graph3d_shader.as_ref(),
        }
    }

    /// Make a type active.  Returns whether the device must switch programs:
    /// binding the already-active type is a no-op.  Requesting a type that is
    /// neither registered nor already active is a caller bug, excluded here.
    pub fn use_shader(&mut self, shader_type: ShaderType) -> (switched: bool)
        requires
            old(self).active_shader == shader_type || old(self).has_shader(shader_type),
        ensures
            switched == spec_use_shader_switches(*old(self), shader_type),
            *final(self) == spec_use_shader(*old(self), shader_type),
    {
        if self.active_shader == shader_type {
            return false;
        }
        self.active_shader = shader_type;
        return true;
    }
}

/// Binding the same type twice in a row switches the device program at most
/// once: the second bind finds the type already active and is a no-op.
pub proof fn lemma_use_shader_idempotent(c: ShaderController, shader_type: ShaderType)
    ensures
        !spec_use_shader_switches(spec_use_shader(c, shader_type), shader_type),
        spec_use_shader(spec_use_shader(c, shader_type), shader_type) == spec_use_shader(
            c,
            shader_type,
        ),
{
}

} // verus!
