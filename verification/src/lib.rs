//! A minimal Wayland kiosk compositor: the rules, without the hardware.

pub mod backend;
pub mod child;
pub mod cli;
pub mod focus;
pub mod frames;
pub mod geometry;
pub mod handlers;
pub mod laws;
pub mod logging;
pub mod order;
pub mod pacing;
pub mod paths;
pub mod run;
pub mod seqs;
pub mod sorting;
pub mod state;
pub mod text;
