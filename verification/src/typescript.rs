//! TypeScript output: a small syntax tree and the stream that prints it.

pub mod codegen;
pub mod ts_ast;
pub mod ts_stream;
