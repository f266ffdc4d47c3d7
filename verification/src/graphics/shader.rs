//! Shader bookkeeping.

use vstd::prelude::*;

verus! {

/// The graphics-API tag of a vertex shader.
pub const GL_VERTEX_SHADER: u32 = 0x8B31;

/// The graphics-API tag of a fragment shader.
pub const GL_FRAGMENT_SHADER: u32 = 0x8B30;

/// The kind of a shader: a shader program binds one of each.
#[derive(Copy, Clone, Eq, PartialEq, Structural, Debug)]
pub enum ShaderType {
    Vertex,
    Fragment,
}

impl ShaderType {
    /// The graphics-API tag of the kind.
    pub open spec fn spec_opengl_type(self) -> u32 {
        match self {
            ShaderType::Vertex => GL_VERTEX_SHADER,
            ShaderType::Fragment => GL_FRAGMENT_SHADER,
        }
    }

    /// Returns the graphics-API equivalent type.
    pub fn opengl_type(&self) -> (r: u32)
        ensures
            r == self.spec_opengl_type(),
    {
        match self {
            ShaderType::Vertex => GL_VERTEX_SHADER,
            ShaderType::Fragment => GL_FRAGMENT_SHADER,
        }
    }
}

/// A shader: the handle of a compiled shader object.
pub struct Shader {
    id: u32,
}

impl Shader {
    /// Records a compiled shader object.
    pub fn new(id: u32) -> (r: Shader)
        ensures
            r.spec_id() == id,
    {
        Shader { id }
    }

    /// The handle of the shader object.
    pub closed spec fn spec_id(&self) -> u32 {
        self.id
    }

    /// Returns the shader id.
    pub fn id(&self) -> (r: u32)
        ensures
            r == self.spec_id(),
    {
        self.id
    }
}

} // verus!
