//! Models: the renderer-side resources of one mesh.

use vstd::prelude::*;
use crate::graphics::buffer::{IndexBuffer, VertexArray, VertexBuffer};

verus! {

/// A model: the vertex array, index buffer and vertex buffers the
/// renderer adapter created for one mesh.
pub struct Model {
    va: VertexArray,
    ib: IndexBuffer,
    buffers: Vec<VertexBuffer>,
}

impl Model {
    /// The vertex array of the model.
    pub closed spec fn spec_va(&self) -> VertexArray {
        self.va
    }

    /// The index buffer of the model.
    pub closed spec fn spec_ib(&self) -> IndexBuffer {
        self.ib
    }

    /// The vertex buffers of the model.
    pub closed spec fn spec_buffers(&self) -> Seq<VertexBuffer> {
        self.buffers@
    }

    /// Assembles a model from its created resources.
    pub fn new(va: VertexArray, ib: IndexBuffer, buffers: Vec<VertexBuffer>) -> (r: Model)
        ensures
            r.spec_va() == va,
            r.spec_ib() == ib,
            r.spec_buffers() == buffers@,
    {
        Model { va, ib, buffers }
    }

    /// Returns the vertex array of the model.
    pub fn va(&self) -> (r: &VertexArray)
        ensures
            *r == self.spec_va(),
    {
        &self.va
    }

    /// Returns the index buffer of the model.
    pub fn ib(&self) -> (r: &IndexBuffer)
        ensures
            *r == self.spec_ib(),
    {
        &self.ib
    }

    /// Returns all additional buffers of the model.
    pub fn buffers(&self) -> (r: &Vec<VertexBuffer>)
        ensures
            r@ == self.spec_buffers(),
    {
        &self.buffers
    }
}

} // verus!
