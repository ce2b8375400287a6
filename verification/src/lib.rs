//! A small dynamically typed scripting language: the compiler from syntax
//! trees to bytecode, and the stack machine that runs the bytecode, with
//! closures that capture frames and types that decide operators, property
//! access and display through slots.
//!
//! Values live in a [`heap::Heap`] and refer to each other by handle. The
//! machine reports exits and errors to its caller instead of ending the
//! process, and collects what a script prints until the caller takes it.

pub mod ast;
pub mod balance;
pub mod builtins;
pub mod compiler;
pub mod decimal;
pub mod discipline;
pub mod display;
pub mod error;
pub mod float;
pub mod frame;
pub mod heap;
pub mod instruction;
pub mod interpreter;
pub mod machine;
pub mod ptr;
pub mod table;
pub mod value;

pub use crate::compiler::CodeBuilder;
pub use crate::interpreter::Interpreter;
