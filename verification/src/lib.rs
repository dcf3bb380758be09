//! Cursor animation and blink timing for a character-grid editor surface.
//!
//! Each frame the renderer decides whether the cursor is shown, which outline
//! it has, where the four corners of that outline sit while they glide to the
//! cursor's cell, and what is painted.
//!
//! Every rule is stated over exact integers: durations are whole
//! milliseconds, clock readings whole nanoseconds, corner offsets whole
//! fractions of a cell, and surface coordinates whole thousandths of a
//! surface unit.

pub mod cursor;
pub mod blink;
pub mod shape;
pub mod corner;
pub mod renderer;
