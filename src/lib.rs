//! A Miniscript fragment model with its type discipline, and an interpreter
//! that replays a witness against a type-checked fragment tree.

pub mod crypto;
pub mod error;
pub mod fragment;
pub mod interpreter;
pub mod roundtrip;
pub mod semantic;
