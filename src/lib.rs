//! Renders a voxel world as a grid of teletext characters.
//!
//! The library holds the block grid, the texture table, the integer side of
//! the voxel walk and the encoder that turns a pixel framebuffer into
//! teletext glyphs with foreground and background colours.

pub mod buffer;
pub mod world;
pub mod ray;
pub mod texture;
pub mod session;
