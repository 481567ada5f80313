//! The two native callback capabilities of the proving bridge.
//!
//! The embedding application supplies the witness generator and the proof
//! generator; the bridge only allocates their output buffers, invokes them,
//! and interprets what they report. Each capability is a trait here: the
//! real implementation adapts the native routine outside the library, and a
//! test double can stand in for it. Nothing is assumed of what an
//! implementation returns — the bridge's contracts state what it does with
//! every possible reply.

use vstd::prelude::*;

verus! {

/// What a witness callback reports: a status code, the witness output
/// buffer with the written length, and the error-message buffer.
pub struct WitnessCallbackOutput {
    /// Zero on success; anything else is a failure.
    pub status: i32,
    /// The witness output buffer, as the callback left it.
    pub witness: Vec<u8>,
    /// How many bytes of `witness` the callback reports having written.
    pub witness_len: usize,
    /// The error-message buffer, as the callback left it.
    pub error_message: Vec<u8>,
}

/// What a proof callback reports: a status code, the proof and
/// public-signal buffers with their written lengths, and the error buffer.
pub struct ProofCallbackOutput {
    /// Zero on success; two means an output buffer was too small; anything
    /// else is a failure.
    pub status: i32,
    /// The proof-point output buffer, as the callback left it.
    pub proof: Vec<u8>,
    /// How many bytes of `proof` the callback reports having written.
    pub proof_len: usize,
    /// The public-signal output buffer, as the callback left it.
    pub public_signals: Vec<u8>,
    /// How many bytes of `public_signals` the callback reports having
    /// written.
    pub public_len: usize,
    /// The error-message buffer, as the callback left it.
    pub error_message: Vec<u8>,
}

/// The externally supplied routine that computes a circuit witness.
pub trait GenerateWitnessCallback {
    /// Computes a witness for `circuit_buffer` and `json_buffer`, writing at
    /// most `witness_capacity` output bytes and at most `error_capacity`
    /// error-message bytes.
    fn generate_witness(
        &self,
        circuit_buffer: &[u8],
        json_buffer: &[u8],
        witness_capacity: usize,
        error_capacity: usize,
    ) -> WitnessCallbackOutput;
}

/// The externally supplied routine that computes a zero-knowledge proof.
pub trait GenerateProofCallback {
    /// Computes a proof for `zkey_buffer` and `wtns_buffer`, writing at most
    /// `proof_capacity` proof bytes, `public_capacity` public-signal bytes
    /// and `error_capacity` error-message bytes.
    fn generate_proof(
        &self,
        zkey_buffer: &[u8],
        wtns_buffer: &[u8],
        proof_capacity: usize,
        public_capacity: usize,
        error_capacity: usize,
    ) -> ProofCallbackOutput;
}

} // verus!
