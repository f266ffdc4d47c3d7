//! Vertex and index buffer bookkeeping.

use vstd::prelude::*;

verus! {

/// The graphics-API tag of a 32-bit float attribute.
pub const GL_FLOAT: u32 = 0x1406;

/// The graphics-API tag of a 32-bit unsigned integer attribute.
pub const GL_UNSIGNED_INT: u32 = 0x1405;

/// The graphics-API tag of a 32-bit signed integer attribute.
pub const GL_INT: u32 = 0x1404;

/// The graphics-API tag of an unsigned byte attribute.
pub const GL_UNSIGNED_BYTE: u32 = 0x1401;

/// The graphics-API encoding of `false`.
pub const GL_FALSE: u8 = 0;

/// The graphics-API encoding of `true`.
pub const GL_TRUE: u8 = 1;

/// Whether an attribute type tag is one the layouts accept.
pub open spec fn supported_element_type(t: u32) -> bool {
    t == GL_FLOAT || t == GL_UNSIGNED_INT || t == GL_INT || t == GL_UNSIGNED_BYTE
}

/// A vertex buffer: the handle of a buffer object the renderer
/// adapter created and uploaded.
pub struct VertexBuffer {
    id: u32,
}

impl VertexBuffer {
    /// Records a created vertex buffer object.
    pub fn new(id: u32) -> (r: VertexBuffer)
        ensures
            r.spec_id() == id,
    {
        VertexBuffer { id }
    }

    /// The handle of the buffer object.
    pub closed spec fn spec_id(&self) -> u32 {
        self.id
    }

    /// Returns the id of the `VertexBuffer`.
    pub fn id(&self) -> (r: u32)
        ensures
            r == self.spec_id(),
    {
        self.id
    }
}

/// An index buffer: the handle of an element buffer object and the
/// number of 32-bit indices uploaded into it, which sizes every draw
/// call of the mesh.
pub struct IndexBuffer {
    id: u32,
    index_count: usize,
}

impl IndexBuffer {
    /// Records a created index buffer object and its index count.
    pub fn new(id: u32, index_count: usize) -> (r: IndexBuffer)
        ensures
            r.spec_id() == id,
            r.spec_index_count() == index_count,
    {
        IndexBuffer { id, index_count }
    }

    /// The handle of the buffer object.
    pub closed spec fn spec_id(&self) -> u32 {
        self.id
    }

    /// The number of indices uploaded into the buffer.
    pub closed spec fn spec_index_count(&self) -> int {
        self.index_count as int
    }

    /// Returns the id of the `IndexBuffer`.
    pub fn id(&self) -> (r: u32)
        ensures
            r == self.spec_id(),
    {
        self.id
    }

    /// Returns the index count of the `IndexBuffer`.
    pub fn index_count(&self) -> (r: usize)
        ensures
            r == self.spec_index_count(),
    {
        self.index_count
    }
}

/// One attribute of a vertex buffer layout: how many components it
/// has, their type tag, and whether the attribute is normalized.
#[derive(Copy, Clone, Eq, PartialEq, Structural, Debug)]
pub struct VertexBufferElement {
    /// The number of components of the attribute.
    pub count: i32,
    /// The type tag of the components.
    pub element_type: u32,
    /// Whether fixed-point data is normalized on upload.
    pub normalized: u8,
}

impl VertexBufferElement {
    /// The size in bytes of one component of a supported type; every
    /// supported component is stored four bytes wide.
    pub fn size_of_opengl_type(opengl_type: u32) -> (r: i32)
        requires
            supported_element_type(opengl_type),
        ensures
            r == 4,
    {
        match opengl_type {
            GL_FLOAT => 4,
            GL_UNSIGNED_INT => 4,
            GL_UNSIGNED_BYTE => 4,
            _ => 4,
        }
    }
}

/// The stride, in bytes, of a sequence of layout elements.
pub open spec fn stride_of(elements: Seq<VertexBufferElement>) -> int
    decreases elements.len(),
{
    if elements.len() == 0 {
        0
    } else {
        stride_of(elements.drop_last()) + 4 * elements.last().count
    }
}

/// The layout of one vertex buffer: its attributes in order, and the
/// total stride of one vertex in bytes.
pub struct VertexBufferLayout {
    elements: Vec<VertexBufferElement>,
    stride: i32,
}

impl VertexBufferLayout {
    /// The attributes of the layout, in order.
    pub closed spec fn spec_elements(&self) -> Seq<VertexBufferElement> {
        self.elements@
    }

    /// The stride of one vertex in bytes.
    pub closed spec fn spec_stride(&self) -> int {
        self.stride as int
    }

    /// Well-formedness: the stride is the byte size of the attributes.
    pub open spec fn wf(&self) -> bool {
        &&& 0 <= self.spec_stride()
        &&& self.spec_stride() == stride_of(self.spec_elements())
        &&& forall|i: int| 0 <= i < self.spec_elements().len() ==> supported_element_type(
            (#[trigger] self.spec_elements()[i]).element_type) && self.spec_elements()[i].count
            >= 0
    }

    /// Creates a new `VertexBufferLayout` with no attributes.
    pub fn new() -> (r: VertexBufferLayout)
        ensures
            r.wf(),
            r.spec_elements() == Seq::<VertexBufferElement>::empty(),
            r.spec_stride() == 0,
    {
        VertexBufferLayout { elements: Vec::new(), stride: 0 }
    }

    /// Pushes a new element to the layout and grows the stride by the
    /// element's byte size.
    pub fn push(&mut self, count: i32, element_type: u32, normalized: u8)
        requires
            old(self).wf(),
            supported_element_type(element_type),
            0 <= count,
            old(self).spec_stride() + 4 * count <= i32::MAX,
        ensures
            final(self).wf(),
            final(self).spec_elements() == old(self).spec_elements().push(
                VertexBufferElement { count, element_type, normalized },
            ),
            final(self).spec_stride() == old(self).spec_stride() + 4 * count,
    {
        let size = VertexBufferElement::size_of_opengl_type(element_type);
        self.stride = self.stride + size * count;
        self.elements.push(VertexBufferElement { count, element_type, normalized });
        proof {
            assert(self.elements@.drop_last() =~= old(self).spec_elements());
        }
    }

    /// Push a new f32 element to the layout.
    pub fn push_f32(&mut self, count: i32)
        requires
            old(self).wf(),
            0 <= count,
            old(self).spec_stride() + 4 * count <= i32::MAX,
        ensures
            final(self).wf(),
            final(self).spec_elements() == old(self).spec_elements().push(
                VertexBufferElement { count, element_type: GL_FLOAT, normalized: GL_FALSE },
            ),
            final(self).spec_stride() == old(self).spec_stride() + 4 * count,
    {
        self.push(count, GL_FLOAT, GL_FALSE);
    }

    /// Push a new u32 element to the layout.
    pub fn push_u32(&mut self, count: i32)
        requires
            old(self).wf(),
            0 <= count,
            old(self).spec_stride() + 4 * count <= i32::MAX,
        ensures
            final(self).wf(),
            final(self).spec_elements() == old(self).spec_elements().push(
                VertexBufferElement { count, element_type: GL_UNSIGNED_INT, normalized: GL_FALSE },
            ),
            final(self).spec_stride() == old(self).spec_stride() + 4 * count,
    {
        self.push(count, GL_UNSIGNED_INT, GL_FALSE);
    }

    /// Push a new i32 element to the layout.
    pub fn push_i32(&mut self, count: i32)
        requires
            old(self).wf(),
            0 <= count,
            old(self).spec_stride() + 4 * count <= i32::MAX,
        ensures
            final(self).wf(),
            final(self).spec_elements() == old(self).spec_elements().push(
                VertexBufferElement { count, element_type: GL_INT, normalized: GL_FALSE },
            ),
            final(self).spec_stride() == old(self).spec_stride() + 4 * count,
    {
        self.push(count, GL_INT, GL_FALSE);
    }

    /// Push a new normalized unsigned byte element to the layout.
    pub fn push_uchar(&mut self, count: i32)
        requires
            old(self).wf(),
            0 <= count,
            old(self).spec_stride() + 4 * count <= i32::MAX,
        ensures
            final(self).wf(),
            final(self).spec_elements() == old(self).spec_elements().push(
                VertexBufferElement { count, element_type: GL_UNSIGNED_BYTE, normalized: GL_TRUE },
            ),
            final(self).spec_stride() == old(self).spec_stride() + 4 * count,
    {
        self.push(count, GL_UNSIGNED_BYTE, GL_TRUE);
    }

    /// Returns the elements of the layout.
    pub fn elements(&self) -> (r: &Vec<VertexBufferElement>)
        ensures
            r@ == self.spec_elements(),
    {
        &self.elements
    }

    /// Returns the stride of the layout.
    pub fn stride(&self) -> (r: i32)
        ensures
            r == self.spec_stride(),
    {
        self.stride
    }
}

/// A vertex array: the handle of a vertex array object and the number
/// of attribute slots bound into it so far.
pub struct VertexArray {
    id: u32,
    buffer_count: u8,
}

impl VertexArray {
    /// Records a created vertex array object with no attributes bound.
    pub fn new(id: u32) -> (r: VertexArray)
        ensures
            r.spec_id() == id,
            r.spec_buffer_count() == 0,
    {
        VertexArray { id, buffer_count: 0 }
    }

    /// The handle of the vertex array object.
    pub closed spec fn spec_id(&self) -> u32 {
        self.id
    }

    /// The number of attribute slots bound so far.
    pub closed spec fn spec_buffer_count(&self) -> int {
        self.buffer_count as int
    }

    /// The handle of the vertex array object.
    pub fn id(&self) -> (r: u32)
        ensures
            r == self.spec_id(),
    {
        self.id
    }

    /// The number of attribute slots bound so far; the next attribute
    /// of an added buffer takes this index.
    pub fn buffer_count(&self) -> (r: u8)
        ensures
            r == self.spec_buffer_count(),
    {
        self.buffer_count
    }

    /// Accounts for a buffer bound with the given layout: each layout
    /// element takes the next attribute slot.
    pub fn add_buffer(&mut self, layout: &VertexBufferLayout)
        requires
            old(self).spec_buffer_count() + layout.spec_elements().len() <= u8::MAX,
        ensures
            final(self).spec_id() == old(self).spec_id(),
            final(self).spec_buffer_count() == old(self).spec_buffer_count()
                + layout.spec_elements().len(),
    {
        let n = layout.elements().len();
        self.buffer_count = self.buffer_count + (n as u8);
    }
}

} // verus!
