//! A small scripting-language back end: a destination-driven single-pass
//! compiler that lowers syntax trees into a compact register bytecode, and a
//! register machine that executes the finished code blocks.
//!
//! The compiler owns an in-progress code buffer, a structurally deduplicated
//! constant pool, a flat local-name map, and a global symbol table that
//! supports forward declaration and mutual recursion between functions. Jumps
//! are emitted as deferred placeholders and back-patched with signed relative
//! offsets exactly once.

pub mod bytecode;
pub mod text;
pub mod token;
pub mod ast;
pub mod compiler;
pub mod form;
pub mod laws;
pub mod value;
pub mod vm;
