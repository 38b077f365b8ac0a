//! A software rasterizer over exact fixed-point arithmetic: a CPU
//! pipeline that carries indexed triangle meshes through a vertex
//! stage, projects them to the screen, and scan-fills them into an
//! RGB framebuffer with depth testing, perspective-correct attribute
//! interpolation, backface culling and an optional wireframe
//! overlay.
//!
//! Every number in the pipeline is a [`fx::Fx`]: a real scaled by
//! `2^16` in a 64-bit word, with saturating, exactly specified
//! operations. On that base the library proves its geometry laws
//! outright: barycentric coordinates of a covered sample partition
//! one, matrix identity and transpose laws hold with no tolerance,
//! the Bresenham walker paints exactly its specified pixel set, and
//! a draw call never touches a pixel outside a triangle's clamped
//! screen bounds nor raises any pixel's depth.
pub mod barycentric;
pub mod bresenham_line;
pub mod buffer_attribute;
pub mod camera;
pub mod cpu_renderer;
pub mod fx;
pub mod gouraud;
pub mod image;
pub mod line;
pub mod mat;
pub mod model;
pub mod renderer;
pub mod shader;
pub mod texture;
pub mod trig;
pub mod utils;
pub mod vec;
