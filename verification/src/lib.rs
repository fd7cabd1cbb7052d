//! NeoH: a declarative hardware description language that is translated
//! into SystemVerilog.
pub mod ast;
pub mod decimal;
pub mod render;
pub mod emitter;
pub mod emmiter;
pub mod parse_tree;
pub mod transformer;
