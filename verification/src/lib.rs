//! The layout, scene and interface rules of the Renzora editor and engine.
//!
//! Every module works on plain values: entities are `u64` ids, numbers that the
//! renderer keeps in single precision are [`scalar::Scalar`]s, text is `String`.
//! A host gathers those values from its world, calls in here for the decision,
//! and carries the answer out.

pub mod dock;
pub mod engine;
pub mod lineage;
pub mod scalar;
pub mod scene;
pub mod text;
pub mod ui;
pub mod unicode;
