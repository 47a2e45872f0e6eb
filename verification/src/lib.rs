//! Bundle manager: the lifecycle of atomically executed instruction bundles.
//!
//! A manager record holds the pause flag and the counters of one authority.
//! Bundles are created under it, filled with instruction records, and then
//! executed as one unit: either every instruction is applied and the bundle
//! ends `Executed`, or the first failure ends it `Failed`.
//!
//! Every operation here is a function from records to records. Loading and
//! storing the records, and applying an instruction, is the caller's business.

pub mod address;
pub mod error;
pub mod guard;
pub mod records;
pub mod processor;
pub mod execution;
pub mod laws;
pub mod store;
