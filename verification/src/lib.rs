//! A single-node ledger engine.
//!
//! The engine is handed block records. It checks each of them (its fields,
//! its hash, its place in the chain, its difficulty, the balance of its
//! transactions), puts the blocks that pass into a chain with many branches,
//! and derives from them the canonical branch and the outputs that nothing
//! has consumed yet.
//!
//! - [`json`]: the records as they come in.
//! - [`text`]: comparing pieces of text.
//! - [`codec`]: the canonical encoding of a record's content, and its digest.
//! - [`model`]: outputs, transactions and blocks, and how records are read as these.
//! - [`rejection`]: the reasons for turning an operation down.
//! - [`validate`]: the stages that look at a record alone.
//! - [`chain`]: the chain, its tips, its canonical state and its outputs.
//! - [`engine`]: the stages that look at the chain, and the engine as a whole.
//! - [`laws`]: what holds of the engine whatever it is handed.
//!
//! Three things are taken on trust, all of them in [`codec`]: that
//! `serde_json` writes a string as one and the same text wherever it is
//! asked, that it writes an unsigned integer in base ten, and that `sha2`
//! gives one and the same hash for the same bytes. Everything else is proved
//! from these and from what `vstd` says of the standard library.

pub mod json;
pub mod text;
pub mod codec;
pub mod model;
pub mod rejection;
pub mod validate;
pub mod chain;
pub mod engine;
pub mod laws;
