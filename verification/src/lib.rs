//! A terminal-based 2D rendering layer.
//!
//! Logical drawing requests (panels, borders, text rows, sprites) are mapped
//! onto a single shared character grid addressed through cursor-positioning
//! and colour-setting escape sequences. The `Renderer` owns the physical
//! output stream as data: every drawing call appends the exact escape bytes
//! to an output buffer, and a ghost history of drawing commands, together
//! with a specification-level interpreter over that history, states which
//! grid cells each call touches.

pub mod colour;
pub mod colours;
pub mod laws;
pub mod renderer;
pub mod sprite;
pub mod terminal;
pub mod text;
pub mod vector;
