//! The display hardware: which output to use, when to draw on it, and what input
//! means.

pub mod discovery;
pub mod drm;
pub mod input;
