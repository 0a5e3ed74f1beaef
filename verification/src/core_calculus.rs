//! The core calculus: integers, pairs, functions, arrows and effect
//! handlers, with its interpreter.
pub mod ast_core;
pub mod render_core;
pub mod render_core_write;
pub mod semantics_core;
pub mod interpreter_core;
