//! The commands.

pub mod up;
