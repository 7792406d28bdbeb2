//! An exporter of a typed program's elaborated intermediate representation
//! into a portable, structured document.
//!
//! The hard part of such an exporter is projecting a deeply nested,
//! recursive type-system graph — generic types, algebraic data types, trait
//! obligations, associated items and compile-time constants — into flat,
//! cross-referenceable records. This crate holds exactly that projection:
//! every encoder works on an explicit, plain-data context ([`ir::Ctx`]) and
//! is specified by a function from the context, the node and the used-types
//! side-table to the record it emits.

pub mod consts;
pub mod encode;
pub mod ir;
pub mod items;
pub mod json;
pub mod laws;
pub mod numeric;
