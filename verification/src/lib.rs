//! Tagging of file paths and web addresses. Tags and items are the vertices
//! of a small typed property graph, and a tag points at each of its items
//! through one directed edge. The graph lives in an `indradb` store.
//!
//! The operations are those of [`GraphConn`]: creating and finding vertices
//! by the value they hold, resolving a value to its vertex, joining tag and
//! item, deleting by value, and walking the graph hop by hop. Each states in
//! its contract what it does to the store, over the model in [`model`].
//!
//! - [`model`]: the store as four tables of rows, what a query lists and how
//!   an operation changes the tables.
//! - [`backend`]: the calls into the store, with what each is taken to do.
//! - [`graph`], [`tagging`], [`traverse`], [`tables`], [`structs`]: the
//!   operations.
//! - [`shape`], [`resolution`], [`linking`], [`tagging_laws`], [`deletion`],
//!   [`reach`]: the shape that every store keeps, and the laws of the
//!   operations: resolving and tagging are idempotent, a tag on `n` items has
//!   `n` edges, nothing of a deleted vertex is left, and a step of a frontier
//!   reaches the vertices that share a target with it.
//! - [`queries`]: the statements for keeping the same tags in relational
//!   tables.
//! - [`kinds`], [`records`], [`error`], [`sequences`]: names, plain values,
//!   failures, and facts about sequences.

pub mod backend;
pub mod deletion;
pub mod error;
pub mod graph;
pub mod kinds;
pub mod linking;
pub mod model;
pub mod queries;
pub mod reach;
pub mod records;
pub mod resolution;
pub mod sequences;
pub mod shape;
pub mod structs;
pub mod tables;
pub mod tagging;
pub mod tagging_laws;
pub mod traverse;

pub use crate::error::TagError;
pub use crate::graph::GraphConn;
pub use crate::kinds::Vtype;
