//! cattywampus: the core of a small stack-based calculator.
//!
//! The library models the calculator's values and their types, the
//! operand stack, the registry of named functions, and the
//! type-checked application protocol that binds them together.

pub mod functions;
pub mod parser;
pub mod render;
pub mod stack;
pub mod typecheck;
pub mod value;
