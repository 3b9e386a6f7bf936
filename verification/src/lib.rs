//! Parallax quilt rendering library.
//!
//! Turns a texture image and an aligned per-pixel depth map into a "quilt":
//! a grid of synthetically re-projected viewpoints for multi-view displays.
//! This crate holds the verified parts: the pixel-grid data model, the quilt
//! geometry and stitching, the device preset table, and the small parsers and
//! helpers around them. The floating-point projection kernel itself lives in
//! the unverified application layer, which drives it through this library.

pub mod captions;
pub mod color;
pub mod debug;
pub mod depth_cache;
pub mod images;
pub mod naming;
pub mod quilt;
pub mod text;
