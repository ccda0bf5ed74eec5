//! Command interpretation for an interactive evaluation loop: input is split
//! into code and `:`-prefixed directives, directives are applied to the
//! session state in source order, and the remaining code is handed to an
//! evaluation engine as one unit.

pub mod text;
pub mod state;
pub mod outputs;
pub mod errors;
pub mod segment;
pub mod commands;
pub mod render;
pub mod context;
pub mod testing;
