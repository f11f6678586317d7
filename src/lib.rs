//! A drawing surface over a byte buffer: geometry value types, overlap and
//! distance predicates, bounds-safe pixel writes, and per-shape drawing calls
//! that rasterize only what touches the canvas.
pub mod bounds;
pub mod drawing;
pub mod objects;
pub mod raster;
pub mod surface;
