#![verifier::loop_isolation(false)]
//! A compiler for a small Lisp-syntaxed service specification language:
//! lexer, reader, lowerer, semantic passes and code generators, each with a
//! machine-checked contract.
//!
//! The laws that tie the parts together are proved beside them: the
//! canonical text of a tree reads back as the tree (`roundtrip`), and the
//! front end accepts the text that the emitter writes (`generate::closure`,
//! on top of `reading`, `words`, `layout` and `fitting`).

pub mod text;
pub mod lexer;
pub mod parser;
pub mod ast;
pub mod diagnostics;
pub mod lower;
pub mod semantic;
pub mod names;
pub mod codegen;
pub mod strings;
pub mod generate;
pub mod scaffold;
pub mod pipeline;
pub mod roundtrip;
pub mod reading;
pub mod words;
pub mod layout;
pub mod fitting;
