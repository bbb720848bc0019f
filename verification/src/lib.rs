//! A small property-based testing engine.
//!
//! A property is a predicate over values that are generated from a seeded
//! random source and bounded by a size. The runner evaluates a property over
//! a schedule of sizes and stops at the first outcome that is not a success.

pub mod random;
pub mod context;
pub mod outcome;
pub mod text;
pub mod arbitrary;
pub mod property;
pub mod quantifier;
pub mod runner;
pub mod report;
pub mod properties;
pub mod shrink;
pub mod shrink_seq;
