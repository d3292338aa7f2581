//! Error taxonomy of the revelation layer.
//!
//! Errors fall into four groups, and every function states exactly which
//! inputs produce which variant: input validation (caught before any witness
//! work), deserialization of sub-proof bytes, proof generation (a sub-proof
//! outside its expected circuit family, or mutually inconsistent claims), and
//! a definite negative verification result.

use vstd::prelude::*;

verus! {

/// Everything this layer can report instead of a proof.
#[derive(Clone, Copy, Debug, PartialEq, Eq, Structural)]
pub enum RevelationError {
    /// Input validation: more mapping keys supplied than the capacity `L`.
    TooManyKeys,
    /// Input validation: a mapping key is wider than the protocol width.
    KeyTooLong,
    /// Input validation: a claimed block number is not a canonical field value.
    BlockNumberOutOfRange,
    /// Deserialization: a sub-proof byte blob does not parse.
    MalformedProofBytes,
    /// Deserialization: a sub-proof is tagged to the other proof family.
    WrongFamily,
    /// Proof generation: the database-side proof names a verifying key other
    /// than the one fixed when the parameters were built.
    WrongDatabaseCircuit,
    /// Proof generation: the query-side verifying key is not a member of the
    /// known query circuit set.
    UnknownQueryCircuit,
    /// Proof generation: a sub-proof's attestation does not bind its claimed
    /// verifying key to its public inputs.
    InvalidAttestation,
    /// Proof generation: the query-side digest differs from the digest
    /// recomputed from the revealed keys.
    DigestMismatch,
    /// Proof generation: the revealed block range differs from the range
    /// claimed by the query-side proof.
    BlockRangeMismatch,
    /// Proof generation: the query-side root is not the root attested by the
    /// database-side proof.
    RootMismatch,
    /// Proof generation: the database's last block number is below the
    /// query's maximum block number.
    StaleDatabase,
    /// Verification: the proof does not check against the compiled circuit.
    VerificationFailure,
}

} // verus!
