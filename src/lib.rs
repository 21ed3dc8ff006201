//! Poseidon-based building blocks over the BLS12-381 scalar field: an
//! authenticated cipher for small field-element messages, and the compaction
//! of a Merkle opening into a fixed-width branch together with the
//! recomputation of the root from it.

pub mod scalar;
pub mod hades;
pub mod cipher;
pub mod branch;
pub mod opening;
pub mod gadget;
