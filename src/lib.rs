//! A small deterministic pseudo-random value generator: a single-word
//! xorshift engine and a typed layer that turns its raw 64-bit draws into
//! values of primitive types, arrays and tuples.
pub mod draw;
pub mod engine;
pub mod laws;

pub use draw::RandomT;
pub use engine::Random;
