//! A minimal state-holding service: a single signed 32-bit counter,
//! initialized to zero, with three operations — increment, decrement, and
//! read. Overflow follows two's-complement wraparound, stated explicitly in
//! the contracts.

pub mod counter;
pub mod model;
