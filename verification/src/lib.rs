//! Display and layout core of a GPU-accelerated text editor.
//!
//! The crate models the host editor's data (tagged words, gap-buffer text,
//! window trees) as plain values, lays buffer text out on a monospace grid
//! into a frame glyph buffer, and keeps the animation and window-management
//! state machines that drive the renderer. Geometry is kept in integer
//! pixels and animation state in fixed-point units so that every rule can
//! be stated and proved over exact arithmetic.

pub mod chars;
pub mod cursor;
pub mod error;
pub mod gapbuf;
pub mod glyphs;
pub mod grid;
pub mod layout;
pub mod modes;
pub mod offsets;
pub mod tagged;
pub mod transition;
pub mod types;
pub mod winman;
pub mod wintree;
pub mod worker;
