//! Types and codec logic for a JSON-RPC API, generated from its specification.
//!
//! A specification document names schemas, error definitions and methods.
//! From it this crate resolves the types to emit and renders them as text:
//!
//! - [`schema`] holds the document, [`merge`] joins two documents;
//! - [`flatten`] finds the schemas that exist only to be merged into others;
//! - [`fields`] turns schemas into fields, [`resolve`] turns a document into
//!   the types to emit, sorted by [`order`];
//! - [`ir`] is the representation of those types, [`options`] the policy and
//!   the override tables of a run;
//! - [`naming`] and [`pattern`] write names and documentation, on top of the
//!   string primitives of [`text`];
//! - [`field`], [`render`] and [`codec`] write the definition of each type and
//!   the codec logic of the types that need their own, [`output`] the whole
//!   text of a run;
//! - [`wire`] states, over plain values, what the two wire strategies do;
//! - [`error`] lists the ways in which a run can fail.
//!
//! Every function is verified against a contract over the model of its
//! arguments, in which a string is a sequence of characters. What is believed
//! without proof is confined to the calls into `regex`, `indexmap` and four
//! functions of the standard library, each behind a declaration that says
//! what is believed of it.

pub mod codec;
pub mod error;
pub mod field;
pub mod fields;
pub mod flatten;
pub mod ir;
pub mod merge;
pub mod naming;
pub mod options;
pub mod order;
pub mod output;
pub mod pattern;
pub mod render;
pub mod resolve;
pub mod schema;
pub mod text;
pub mod wire;
