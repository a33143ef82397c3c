//! The logic behind the `CMake` and `CMake2` derives: how a type's shape and
//! its `#[cmake(...)]` attributes decide the parser implementation that is
//! generated for it.

pub mod text;
pub mod attribute;
pub mod input;
pub mod error;
pub mod options;
pub mod parse_impl;
pub mod command_impl;
pub mod laws;
