//! Renderer-resource bookkeeping.

use rustcraft::graphics::buffer::{
    IndexBuffer, VertexArray, VertexBuffer, VertexBufferElement, VertexBufferLayout, GL_FLOAT,
    GL_UNSIGNED_INT,
};
use rustcraft::graphics::model::Model;
use rustcraft::graphics::shader::{Shader, ShaderType, GL_FRAGMENT_SHADER, GL_VERTEX_SHADER};
use rustcraft::graphics::texture::{Texture, TextureArray};

#[test]
fn layout_accumulates_elements_and_stride() {
    let mut layout = VertexBufferLayout::new();
    assert_eq!(layout.stride(), 0);
    layout.push_f32(3);
    assert_eq!(layout.stride(), 12);
    layout.push_u32(2);
    assert_eq!(layout.stride(), 20);
    layout.push_i32(1);
    assert_eq!(layout.stride(), 24);
    layout.push_uchar(4);
    assert_eq!(layout.stride(), 40);

    let elements = layout.elements();
    assert_eq!(elements.len(), 4);
    assert_eq!(elements[0].count, 3);
    assert_eq!(elements[0].element_type, GL_FLOAT);
    assert_eq!(elements[1].element_type, GL_UNSIGNED_INT);
    assert_eq!(VertexBufferElement::size_of_opengl_type(GL_FLOAT), 4);
}

#[test]
fn buffer_handles_keep_their_metadata() {
    let vb = VertexBuffer::new(7);
    assert_eq!(vb.id(), 7);
    let ib = IndexBuffer::new(8, 36);
    assert_eq!(ib.id(), 8);
    assert_eq!(ib.index_count(), 36);

    let mut va = VertexArray::new(9);
    assert_eq!(va.id(), 9);
    assert_eq!(va.buffer_count(), 0);
    let mut layout = VertexBufferLayout::new();
    layout.push_f32(3);
    layout.push_f32(2);
    va.add_buffer(&layout);
    assert_eq!(va.buffer_count(), 2);

    let model = Model::new(va, ib, vec![vb]);
    assert_eq!(model.va().id(), 9);
    assert_eq!(model.ib().index_count(), 36);
    assert_eq!(model.buffers().len(), 1);
    assert_eq!(model.buffers()[0].id(), 7);
}

#[test]
fn shader_kinds_map_to_api_tags() {
    assert_eq!(ShaderType::Vertex.opengl_type(), GL_VERTEX_SHADER);
    assert_eq!(ShaderType::Fragment.opengl_type(), GL_FRAGMENT_SHADER);
    assert_eq!(Shader::new(3).id(), 3);
}

#[test]
fn texture_handles_keep_their_metadata() {
    let tex = Texture::new(4, String::from("textures/textures.png"), 256, 128, 32);
    assert_eq!(tex.id(), 4);
    assert_eq!(tex.width(), 256);
    assert_eq!(tex.height(), 128);
    assert_eq!(tex.bpp(), 32);
    assert_eq!(tex.file_path().as_str(), "textures/textures.png");
    assert_eq!(TextureArray::new(5).id(), 5);
}
