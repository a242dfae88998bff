//! Verified core of the cosmos screensaver: the universe lifecycle, particle
//! trails, caption layout, glyph plotting and the integer rules of seed mergers.
//! The floating-point physics and drawing live outside this crate.

pub mod history;
pub mod lifecycle;
pub mod logo;
pub mod grid;
pub mod color;
pub mod merge;
pub mod select;
pub mod budget;
pub mod host;
