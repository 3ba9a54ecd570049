//! From a lightweight YAML specification document to source text of the
//! spec language: YAML reader, spec lowerer and spec emitter; and the proof
//! that the front end accepts what the emitter writes (`closure`), which
//! follows the text piece by piece (`segments`, `written`, `written_fns`,
//! `written_doc`) and then the lowerer form by form (`bodies`, `lowered`,
//! `lowered_fns`).

pub mod yaml_ast;
pub mod yaml_parser;
pub mod spec_ast;
pub mod spec_parser;
pub mod pct_emitter;
pub mod segments;
pub mod written;
pub mod written_fns;
pub mod written_doc;
pub mod bodies;
pub mod lowered;
pub mod lowered_fns;
pub mod closure;
