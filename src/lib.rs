//! Scene descriptions for a Whitted-style ray tracer: the scene language,
//! the exact scene model built from it, the spatial index over its objects,
//! and the integer side of sampling, shading decisions and image assembly.
//! Also the pixel-list and triangle-file formats of the companion tools.

pub mod bvh;
pub mod number;
pub mod pixels;
pub mod raster;
pub mod render;
pub mod scene;
pub mod scene_file;
pub mod text;
