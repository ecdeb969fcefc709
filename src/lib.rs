//! High-resolution asset substitution for a closed 2D/3D renderer: address-keyed
//! tracking of replacement assets, background/overlay compositing, the per-hook
//! decisions of what to substitute, and the pixel conversion of decoded video.

pub mod addr;
pub mod background;
pub mod catalog;
pub mod config;
pub mod feature;
pub mod graphics;
pub mod pixels;
pub mod text;
pub mod video;
