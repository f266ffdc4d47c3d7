//! CPU-side bookkeeping of renderer resources.
//!
//! The renderer boundary creates buffer, shader and texture objects
//! from the library's mesh data and hands back numeric handles.  These
//! modules keep the handles and the metadata the library reasons
//! about — index counts, buffer layouts and strides, texture sizes —
//! while the graphics-API calls themselves live with the renderer
//! adapter.

pub mod buffer;
pub mod model;
pub mod shader;
pub mod texture;
