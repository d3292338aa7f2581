//! Recursive-composition ("revelation") layer for a zero-knowledge query
//! system: it canonicalizes claimed mapping keys, binds the public data of a
//! query-aggregation sub-proof and a block-database sub-proof into one fixed
//! public-input layout, checks that the two sub-proofs belong to their
//! expected circuit families and make mutually consistent claims, and emits
//! one proof over that layout, bound to the compiled circuit identity.

pub mod codec;
pub mod digest;
pub mod error;
pub mod field;
pub mod keys;
pub mod layout;
pub mod params;
pub mod proofs;
