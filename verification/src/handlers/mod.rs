//! What clients may ask for, and what they are answered.

pub mod compositor;
pub mod seat;
pub mod xdg_shell;
