//! Core of a tile-map editor: a bit-packed texture atlas, a vertex grid
//! holding the per-tile geometry, and a keyboard-driven selection protocol
//! that edits both. Rendering and window plumbing live outside this crate;
//! it exposes plain buffers (packed texel bytes, a vertex sequence) for a
//! renderer to upload.

pub mod controller;
pub mod imagegen;
pub mod keystate;
pub mod vertexgrid;
