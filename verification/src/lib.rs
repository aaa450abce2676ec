//! A translator from a small imperative teaching language to C.
//!
//! Source text is split into tokens (`tokenizer`), the tokens are parsed into
//! a tree (`parser`, after the grammar in `grammar`) while a table of declared
//! names is filled (`table`), and the tree (`tree`) is written out as C source
//! text (`codegen`). `translate` runs the three stages one after the other.
//! Every stage is a function of its input alone and reports the first failure
//! as a typed error. `laws` holds what is proved of the grammar as a whole.
//!
//! Beside the translator stands a builder of statements and arithmetic
//! expressions (`ast`) from the matches of a pest grammar (`semantic`).
pub mod ast;
pub mod codegen;
pub mod grammar;
pub mod laws;
pub mod parser;
pub mod semantic;
pub mod table;
pub mod text;
pub mod tokenizer;
pub mod translate;
pub mod tree;
