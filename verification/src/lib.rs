//! A small verified ray-casting toolkit: a camera-ray generator over an
//! exact fixed-point vector type, the raster-scan bookkeeping of a pixel
//! buffer, the mapping from surface normals to display colours, and the
//! decision logic around shader compilation.

pub mod camera;
pub mod color;
pub mod grid;
pub mod shader;
pub mod vec3;
