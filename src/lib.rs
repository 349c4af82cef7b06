//! The integer core of a small path tracer: its random stream, the order in
//! which pixels are produced, the text image format, the choice of the nearest
//! intersection, the bound on light-path depth, and the choices the built-in
//! scenes make.

pub mod builder;
pub mod path;
pub mod ppm;
pub mod rand48;
pub mod raster;
pub mod world;
