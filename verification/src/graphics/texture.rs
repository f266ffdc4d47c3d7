//! Texture bookkeeping.

use vstd::prelude::*;

verus! {

/// A texture: the handle of a texture object and the metadata of the
/// image it was created from.
pub struct Texture {
    id: u32,
    file_path: String,
    width: u32,
    height: u32,
    bpp: u16,
}

impl Texture {
    /// Records a created texture object and its image metadata.
    pub fn new(id: u32, file_path: String, width: u32, height: u32, bpp: u16) -> (r: Texture)
        ensures
            r.spec_id() == id,
            r.spec_file_path() == file_path@,
            r.spec_width() == width,
            r.spec_height() == height,
            r.spec_bpp() == bpp,
    {
        Texture { id, file_path, width, height, bpp }
    }

    /// The handle of the texture object.
    pub closed spec fn spec_id(&self) -> u32 {
        self.id
    }

    /// The source path of the texture image.
    pub closed spec fn spec_file_path(&self) -> Seq<char> {
        self.file_path@
    }

    /// The width of the texture in pixels.
    pub closed spec fn spec_width(&self) -> u32 {
        self.width
    }

    /// The height of the texture in pixels.
    pub closed spec fn spec_height(&self) -> u32 {
        self.height
    }

    /// The bits per pixel of the texture.
    pub closed spec fn spec_bpp(&self) -> u16 {
        self.bpp
    }

    /// The handle of the texture object.
    pub fn id(&self) -> (r: u32)
        ensures
            r == self.spec_id(),
    {
        self.id
    }

    /// Returns the width of the texture.
    pub fn width(&self) -> (r: u32)
        ensures
            r == self.spec_width(),
    {
        self.width
    }

    /// Returns the height of the texture.
    pub fn height(&self) -> (r: u32)
        ensures
            r == self.spec_height(),
    {
        self.height
    }

    /// Returns the bits per pixel of the texture.
    pub fn bpp(&self) -> (r: u16)
        ensures
            r == self.spec_bpp(),
    {
        self.bpp
    }

    /// Returns the file path of the texture.
    pub fn file_path(&self) -> (r: &String)
        ensures
            r@ == self.spec_file_path(),
    {
        &self.file_path
    }
}

/// A texture array: the handle of a layered texture object.
pub struct TextureArray {
    id: u32,
}

impl TextureArray {
    /// Records a created texture array object.
    pub fn new(id: u32) -> (r: TextureArray)
        ensures
            r.spec_id() == id,
    {
        TextureArray { id }
    }

    /// The handle of the texture array object.
    pub closed spec fn spec_id(&self) -> u32 {
        self.id
    }

    /// Returns the id of the texture array.
    pub fn id(&self) -> (r: u32)
        ensures
            r == self.spec_id(),
    {
        self.id
    }
}

} // verus!
