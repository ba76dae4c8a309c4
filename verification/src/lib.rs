//! A CPU-only software rasterizer core: a block-traversal edge-function
//! triangle rasterizer with a programmable shader pipeline, a depth-tested
//! deferred fragment buffer, and a perspective-correct attribute
//! interpolator.
//!
//! All geometry runs on exact Q47.16 fixed-point arithmetic (`fixed`), so
//! every stage of the pipeline carries a full functional contract.

pub mod depth_buffer;
pub mod fragment_buffer;
pub mod fragment_shader;
pub mod fixed;
pub mod fuwa;
pub mod fx3;
pub mod handle;
pub mod laws;
pub mod limits;
pub mod mesh;
pub mod pipeline;
pub mod rasterizer;
pub mod stats;
pub mod texture;
pub mod triangle;
pub mod uniforms;
pub mod vertex_shader;
