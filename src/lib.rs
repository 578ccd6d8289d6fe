//! A software triangle rasterizer: images and framebuffers, scissor
//! rectangles, per-attachment blending and a render-target stack.
//!
//! The rasterizer decides which pixels of a face are written and how: the
//! face's pixel box, its intersection with the call's scissor, the coverage
//! rule, the depth test and the merge into every attachment. The geometry
//! that needs floating point (vertex positions, edge functions, perspective
//! interpolation) and the fragment stage are the shader's, behind the
//! `Shader` trait. Depths are IEEE-754 single-precision bit patterns.

pub mod blending;
pub mod depth;
pub mod error;
pub mod framebuffer;
pub mod image;
pub mod rasterizer;
pub mod scissor;
pub mod shader;

pub use blending::{BlendAttachment, BlendFactor, BlendOp, ComponentBlendOp};
pub use error::RasterizerError;
pub use framebuffer::{ClearValue, Framebuffer, MutableScanline};
pub use image::{CoordinateIterator, Image};
pub use rasterizer::{
    gen_scissor, DepthMode, IndexedRenderCall, Pipeline, Rasterizer, RenderStats, RenderTarget,
};
pub use scissor::Scissor;
pub use shader::{Coverage, PointBounds, Shader, VertexContext, WindingOrder};
