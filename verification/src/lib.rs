//! A small compiler for a straight-line/for-loop language, centred on a
//! verified register-allocation backend: control-flow successors, backward
//! liveness dataflow, interference-graph construction, Kempe-style graph
//! coloring with spilling, and spill-aware instruction rewriting.

pub mod ast;
pub mod cfg;
pub mod coloring;
pub mod errors;
pub mod instr;
pub mod interference;
pub mod ir_code_gen;
pub mod lex;
pub mod liveness;
pub mod parser;
pub mod regalloc;
pub mod rewrite;
