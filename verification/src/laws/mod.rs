//! What the operations promise, stated over what goes into them and what comes out.
//!
//! The contract of an operation is written in terms of a model; these laws say in plain
//! terms what that comes to, for every call that the contract admits.

pub mod arguments;
pub mod exit;
pub mod frames;
pub mod input;
pub mod output;
pub mod scene;
pub mod shell;
pub mod text;
