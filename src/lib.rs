pub mod boxable;
pub mod dgen2sqf_ast;
pub mod dgen_ast;
pub mod generic;
pub mod number;
pub mod optimizer;
pub mod parser;
pub mod semantic_analyzer;
pub mod sqf_ast;
pub mod sqf_generator;
