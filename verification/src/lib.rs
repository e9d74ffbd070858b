//! Turns a PLONK verification key over BN254 into the named text parameters of
//! an on-chain verifier, and fills a template with them.

pub mod digits;
pub mod error;
pub mod field;
pub mod points;
pub mod domain;
pub mod parameter;
pub mod key;
pub mod builder;
pub mod adapter;
