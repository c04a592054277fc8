//! Privacy-preserving comparison of fixed-width integers.
//!
//! Operands are held as bit sequences; a comparison builds a boolean circuit,
//! garbles it, evaluates it on wire labels and decodes only the final answer.

pub mod circuit;
pub mod bits;
pub mod builder;
pub mod garble;
pub mod generator;
pub mod protocol;
pub mod comparator;
pub mod laws;
