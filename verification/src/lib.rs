pub mod text;
pub mod span;
pub mod ast;
pub mod semantic;
pub mod codegen;
pub mod target;
pub mod configuration;
pub mod build_graph;
pub mod cli;
pub mod fuzzing;
