//! Generation of typed visitor interfaces from a grammar's node-kind schema.
//!
//! A schema is an ordered list of raw node-kind names. From it the library
//! derives one `visit_<identifier>` method per kind, a dispatch table that
//! routes a node's runtime kind tag to the first matching method, and the
//! Rust source text of the resulting visitor trait.
mod text;

pub mod calc;
pub mod interface;
pub mod render;
pub mod sanitize;

pub use calc::{calc_kind, CalcKind, CalcVisitor, TaggedNode};
pub use interface::{
    generate_visitor, DispatchArm, GenerateError, GeneratedMethod, VisitError, VisitorInterface,
};
pub use sanitize::sanitize_identifier;
