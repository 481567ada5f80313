//! Fixed capacities of the buffers handed to the native proving callbacks.

use vstd::prelude::*;

verus! {

/// Capacity of the witness output buffer.
pub const WITNESS_SIZE: usize = 100 * 1024 * 1024;

/// Capacity of the error-message buffer handed to either callback.
pub const WITNESS_ERROR_MSG_MAXSIZE: usize = 256;

/// Capacity of the proof-point output buffer.
pub const PROOF_SIZE: usize = 4 * 1024 * 1024;

/// Capacity of the public-signal output buffer.
pub const PUB_SIGNALS_SIZE: usize = 4 * 1024 * 1024;

} // verus!
