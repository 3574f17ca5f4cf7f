//! A Scheme system around a stack-based virtual machine: a lexer, a
//! reader and a compiler; the heap of tagged value cells with its collector,
//! the stack and the global environment; instruction dispatch; and the
//! native procedures, with the laws that hold of them.
pub mod bindings;
pub mod builtin;
pub mod code;
pub mod compiler;
pub mod error;
pub mod eval;
pub mod gc;
pub mod heap;
pub mod laws;
pub mod lexer;
pub mod list;
pub mod machine;
pub mod number;
pub mod printer;
pub mod reader;
pub mod stack;
pub mod text;
pub mod unicode;
pub mod vcell;
pub mod vm;
