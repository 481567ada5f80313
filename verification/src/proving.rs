//! The proving bridge: holds the two native callback capabilities and the
//! selected proving scheme, allocates the fixed-capacity output buffers,
//! invokes a callback, and interprets everything it reports.

use crate::callbacks::{
    GenerateProofCallback, GenerateWitnessCallback, ProofCallbackOutput, WitnessCallbackOutput,
};
use crate::constants::{PROOF_SIZE, PUB_SIGNALS_SIZE, WITNESS_ERROR_MSG_MAXSIZE, WITNESS_SIZE};
use crate::errors::ZKNeuralError;
use crate::parse::{
    parse_groth_points, parse_pub_signals, parse_ultra_groth_points, sp_parse_groth,
    sp_parse_signals, sp_parse_ultra,
};
use crate::zk_proof::{
    json_of_groth_points, json_of_proof_document, json_of_ultra_groth_points, GrothZkProof,
    UltraGrothProof,
};
use vstd::prelude::*;
use vstd::slice::slice_subrange;
use vstd::string::*;
use vstd::utf8::{decode_utf8, valid_utf8};

verus! {

/// The proving scheme the external proof callback is expected to emit.
#[derive(Clone, Copy, Debug, PartialEq, Eq, Structural)]
pub enum ZKNeuralProvingType {
    Groth,
    UltraGroth,
}

/// `bytes` without its trailing zero bytes.
pub open spec fn strip_trailing_nuls(bytes: Seq<u8>) -> Seq<u8>
    decreases bytes.len(),
{
    if bytes.len() > 0 && bytes.last() == 0 {
        strip_trailing_nuls(bytes.drop_last())
    } else {
        bytes
    }
}

/// What `String::from_utf8_lossy` makes of a byte sequence; a pure function
/// of the bytes.
pub uninterp spec fn utf8_lossy_of(bytes: Seq<u8>) -> Seq<char>;

/// Relies on `String::from_utf8_lossy` of std: the result depends on the
/// bytes alone, and on valid UTF-8 it is exactly their decoding.
#[verifier::external_body]
fn utf8_lossy(bytes: &[u8]) -> (r: String)
    ensures
        r@ == utf8_lossy_of(bytes@),
        valid_utf8(bytes@) ==> r@ == decode_utf8(bytes@),
{
    String::from_utf8_lossy(bytes).into_owned()
}

/// The first position after which only zero bytes follow.
fn nul_trimmed_end(buf: &[u8]) -> (r: usize)
    ensures
        r <= buf@.len(),
        buf@.take(r as int) == strip_trailing_nuls(buf@),
{
    let mut end: usize = buf.len();
    proof {
        assert(buf@.take(end as int) =~= buf@);
    }
    while end > 0 && buf[end - 1] == 0
        invariant
            end <= buf@.len(),
            strip_trailing_nuls(buf@) == strip_trailing_nuls(buf@.take(end as int)),
        decreases end,
    {
        proof {
            assert(buf@.take(end as int).last() == 0);
            assert(buf@.take(end as int).drop_last() =~= buf@.take(end as int - 1));
        }
        end = end - 1;
    }
    proof {
        if end > 0 {
            assert(buf@.take(end as int).last() == buf@[end as int - 1]);
        }
        assert(strip_trailing_nuls(buf@.take(end as int)) == buf@.take(end as int));
    }
    end
}

/// The message a callback left in its error buffer: the buffer without its
/// trailing zero padding, decoded leniently. (Trimming the zero bytes first
/// and decoding then yields the same string as decoding first and trimming
/// zero characters, since a zero byte never occurs inside a longer UTF-8
/// encoding.)
pub fn error_buffer_message(buf: &[u8]) -> (r: String)
    ensures
        r@ == utf8_lossy_of(strip_trailing_nuls(buf@)),
{
    let end = nul_trimmed_end(buf);
    let trimmed = slice_subrange(buf, 0, end);
    proof {
        assert(trimmed@ =~= strip_trailing_nuls(buf@));
    }
    utf8_lossy(trimmed)
}

/// `s` cut down to its first `n` elements, as `Vec::truncate` leaves it.
pub open spec fn truncated(s: Seq<u8>, n: int) -> Seq<u8> {
    if n <= s.len() {
        s.take(n)
    } else {
        s
    }
}

/// Turns what the witness callback reported into the bridge's result:
/// status zero yields the witness buffer cut to the reported length; any
/// other status yields the error buffer's message.
pub fn interpret_witness_output(output: WitnessCallbackOutput) -> (r: Result<
    Vec<u8>,
    ZKNeuralError,
>)
    ensures
        output.status == 0 ==> (r matches Ok(w) && w@ == truncated(
            output.witness@,
            output.witness_len as int,
        )),
        output.status != 0 ==> (r matches Err(ZKNeuralError::WitnessGenerationFailed(m)) && m@
            == utf8_lossy_of(strip_trailing_nuls(output.error_message@))),
{
    if output.status != 0 {
        Err(
            ZKNeuralError::WitnessGenerationFailed(
                error_buffer_message(output.error_message.as_slice()),
            ),
        )
    } else {
        let mut witness = output.witness;
        witness.truncate(output.witness_len);
        Ok(witness)
    }
}

/// Turns what the proof callback reported into the bridge's result.
/// Status two is the distinguished buffer-too-small condition and yields a
/// fixed message whatever the error buffer holds; any other nonzero status
/// yields the error buffer's message; status zero cuts both buffers to
/// their reported lengths, reads them in the shape the selected scheme
/// demands, and re-encodes them as one canonical proof document.
pub fn interpret_proof_output(
    proving_type: ZKNeuralProvingType,
    output: ProofCallbackOutput,
) -> (r: Result<Vec<u8>, ZKNeuralError>)
    ensures
        output.status == 2 ==> (r matches Err(ZKNeuralError::ProofGenerationFailed(m)) && m@
            == "Proof or public signals buffer is too short"@),
        output.status != 2 && output.status != 0 ==> (r matches Err(
            ZKNeuralError::ProofGenerationFailed(m),
        ) && m@ == utf8_lossy_of(strip_trailing_nuls(output.error_message@))),
        output.status == 0 ==> ({
            let proof_bytes = truncated(output.proof@, output.proof_len as int);
            let public_bytes = truncated(output.public_signals@, output.public_len as int);
            match proving_type {
                ZKNeuralProvingType::Groth => match sp_parse_groth(proof_bytes) {
                    None => r matches Err(ZKNeuralError::JsonError(_)),
                    Some(points) => match sp_parse_signals(public_bytes) {
                        None => r matches Err(ZKNeuralError::JsonError(_)),
                        Some(signals) => (r matches Ok(b) && b@ == json_of_proof_document(
                            json_of_groth_points(points.0, points.1, points.2, points.3),
                            signals,
                        )),
                    },
                },
                ZKNeuralProvingType::UltraGroth => match sp_parse_ultra(proof_bytes) {
                    None => r matches Err(ZKNeuralError::JsonError(_)),
                    Some(points) => match sp_parse_signals(public_bytes) {
                        None => r matches Err(ZKNeuralError::JsonError(_)),
                        Some(signals) => (r matches Ok(b) && b@ == json_of_proof_document(
                            json_of_ultra_groth_points(points.0, points.1, points.2, points.3),
                            signals,
                        )),
                    },
                },
            }
        }),
{
    if output.status == 2 {
        return Err(
            ZKNeuralError::ProofGenerationFailed(
                String::from_str("Proof or public signals buffer is too short"),
            ),
        );
    }
    if output.status != 0 {
        return Err(
            ZKNeuralError::ProofGenerationFailed(
                error_buffer_message(output.error_message.as_slice()),
            ),
        );
    }
    let mut proof_buf = output.proof;
    proof_buf.truncate(output.proof_len);
    let mut public_buf = output.public_signals;
    public_buf.truncate(output.public_len);
    match proving_type {
        ZKNeuralProvingType::Groth => {
            let points = match parse_groth_points(proof_buf.as_slice()) {
                None => {
                    return Err(
                        ZKNeuralError::JsonError(
                            String::from_str("malformed Groth proof points document"),
                        ),
                    );
                },
                Some(p) => p,
            };
            let signals = match parse_pub_signals(public_buf.as_slice()) {
                None => {
                    return Err(
                        ZKNeuralError::JsonError(
                            String::from_str("malformed public signals document"),
                        ),
                    );
                },
                Some(v) => v,
            };
            let document = GrothZkProof { proof: points, pub_signals: signals };
            Ok(document.to_json_bytes())
        },
        ZKNeuralProvingType::UltraGroth => {
            let points = match parse_ultra_groth_points(proof_buf.as_slice()) {
                None => {
                    return Err(
                        ZKNeuralError::JsonError(
                            String::from_str("malformed UltraGroth proof points document"),
                        ),
                    );
                },
                Some(p) => p,
            };
            let signals = match parse_pub_signals(public_buf.as_slice()) {
                None => {
                    return Err(
                        ZKNeuralError::JsonError(
                            String::from_str("malformed public signals document"),
                        ),
                    );
                },
                Some(v) => v,
            };
            let document = UltraGrothProof { proof: points, pub_signals: signals };
            Ok(document.to_json_bytes())
        },
    }
}

/// The proving bridge. Both callback slots and the proving scheme start
/// unset; each can be set once and persists for the bridge's lifetime.
pub struct ZKNeuralCore<W, P> {
    generate_witness_callback: Option<W>,
    generate_proof_callback: Option<P>,
    proving_type: Option<ZKNeuralProvingType>,
}

impl<W: GenerateWitnessCallback, P: GenerateProofCallback> ZKNeuralCore<W, P> {
    /// Whether a witness callback has been registered.
    pub closed spec fn witness_callback_set(&self) -> bool {
        self.generate_witness_callback is Some
    }

    /// Whether a proof callback has been registered.
    pub closed spec fn proof_callback_set(&self) -> bool {
        self.generate_proof_callback is Some
    }

    /// The selected proving scheme, if one has been selected.
    pub closed spec fn proving_type_spec(&self) -> Option<ZKNeuralProvingType> {
        self.proving_type
    }

    /// A bridge with no callbacks and no proving scheme.
    pub fn new() -> (r: Self)
        ensures
            !r.witness_callback_set(),
            !r.proof_callback_set(),
            r.proving_type_spec() is None,
    {
        ZKNeuralCore {
            generate_witness_callback: None,
            generate_proof_callback: None,
            proving_type: None,
        }
    }

    /// Registers the witness callback.
    pub fn set_generate_witness_callback(&mut self, callback: W)
        ensures
            final(self).witness_callback_set(),
            final(self).proof_callback_set() == old(self).proof_callback_set(),
            final(self).proving_type_spec() == old(self).proving_type_spec(),
    {
        self.generate_witness_callback = Some(callback);
    }

    /// Registers the proof callback.
    pub fn set_generate_proof_callback(&mut self, callback: P)
        ensures
            final(self).proof_callback_set(),
            final(self).witness_callback_set() == old(self).witness_callback_set(),
            final(self).proving_type_spec() == old(self).proving_type_spec(),
    {
        self.generate_proof_callback = Some(callback);
    }

    /// Selects the proving scheme.
    pub fn set_proving_type(&mut self, proving_type: ZKNeuralProvingType)
        ensures
            final(self).proving_type_spec() == Some(proving_type),
            final(self).witness_callback_set() == old(self).witness_callback_set(),
            final(self).proof_callback_set() == old(self).proof_callback_set(),
    {
        self.proving_type = Some(proving_type);
    }

    /// Invokes the witness callback with fixed-capacity output buffers and
    /// interprets its report as [`interpret_witness_output`] states. Fails
    /// with `WitnessCallbackNotSet` exactly when no callback is registered.
    pub fn generate_witness(&self, circuit_buffer: &[u8], json_buffer: &[u8]) -> (r: Result<
        Vec<u8>,
        ZKNeuralError,
    >)
        ensures
            (r matches Err(ZKNeuralError::WitnessCallbackNotSet)) <==> !self.witness_callback_set(),
            r matches Err(e) ==> (e matches ZKNeuralError::WitnessCallbackNotSet || e matches
                ZKNeuralError::WitnessGenerationFailed(_)),
    {
        match &self.generate_witness_callback {
            None => Err(ZKNeuralError::WitnessCallbackNotSet),
            Some(callback) => {
                let output = callback.generate_witness(
                    circuit_buffer,
                    json_buffer,
                    WITNESS_SIZE,
                    WITNESS_ERROR_MSG_MAXSIZE,
                );
                interpret_witness_output(output)
            },
        }
    }

    /// Invokes the proof callback with fixed-capacity output buffers and
    /// interprets its report as [`interpret_proof_output`] states. Fails
    /// with `ProvingTypeNotSet` exactly when no scheme is selected, and
    /// otherwise with `ProofCallbackNotSet` exactly when no callback is
    /// registered.
    pub fn generate_proof(&self, zkey_buffer: &[u8], wtns_buffer: &[u8]) -> (r: Result<
        Vec<u8>,
        ZKNeuralError,
    >)
        ensures
            (r matches Err(ZKNeuralError::ProvingTypeNotSet)) <==> self.proving_type_spec()
                is None,
            (r matches Err(ZKNeuralError::ProofCallbackNotSet)) <==> (self.proving_type_spec()
                is Some && !self.proof_callback_set()),
            r matches Err(e) ==> (e matches ZKNeuralError::ProvingTypeNotSet || e matches
                ZKNeuralError::ProofCallbackNotSet || e matches ZKNeuralError::ProofGenerationFailed(
                _,
            ) || e matches ZKNeuralError::JsonError(_)),
    {
        let proving_type = match &self.proving_type {
            None => {
                return Err(ZKNeuralError::ProvingTypeNotSet);
            },
            Some(t) => *t,
        };
        match &self.generate_proof_callback {
            None => Err(ZKNeuralError::ProofCallbackNotSet),
            Some(callback) => {
                let output = callback.generate_proof(
                    zkey_buffer,
                    wtns_buffer,
                    PROOF_SIZE,
                    PUB_SIGNALS_SIZE,
                    WITNESS_ERROR_MSG_MAXSIZE,
                );
                interpret_proof_output(proving_type, output)
            },
        }
    }
}

} // verus!
