//! The logic of a content-addressed block store that keeps its blocks in the
//! columns of an embedded key-value engine.
//!
//! The crate decides and computes; it performs no input or output. Each
//! operation of the store is given as the point lookup or the commit to hand
//! to the engine, and what the engine answers is interpreted here in turn.
//! The behaviour expected of the engine is written down in [`engine`], and
//! the store's guarantees are proved against it.

pub mod beacon;
pub mod column;
pub mod content;
pub mod engine;
pub mod gc;
pub mod operation;
pub mod store;
pub mod store_laws;
pub mod sweep_laws;
