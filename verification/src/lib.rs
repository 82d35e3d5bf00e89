//! A small ahead-of-time compiler for a parenthesized arithmetic language.
//!
//! The crate lowers a parse tree of integer and boolean literals combined by
//! `+`, `-` and `*` to a control-flow graph of basic blocks holding typed SSA
//! values. The central algorithm, [`codegen::codegen`], walks the tree
//! recursively, threads intermediate results across block boundaries through
//! block parameters, and folds each operator's operands in their original
//! left-to-right source order, sign-extending narrower operands as needed.

pub mod ast;
pub mod builder;
pub mod codegen;
pub mod laws;
pub mod literal;
pub mod opts;
pub mod program;
pub mod semantics;

pub use ast::Op;
pub use ast::ParseNode;
pub use ast::Radix;
pub use builder::Builder;
pub use codegen::CodeChange;
pub use codegen::TranslateError;
pub use codegen::TypedValue;
pub use codegen::codegen;
pub use opts::Opts;
pub use program::build_program;
pub use program::finish_function;
