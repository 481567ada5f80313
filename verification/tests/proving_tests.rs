use zkneural::callbacks::{
    GenerateProofCallback, GenerateWitnessCallback, ProofCallbackOutput, WitnessCallbackOutput,
};
use zkneural::constants::{PROOF_SIZE, PUB_SIGNALS_SIZE, WITNESS_ERROR_MSG_MAXSIZE, WITNESS_SIZE};
use zkneural::errors::ZKNeuralError;
use zkneural::proving::{interpret_proof_output, ZKNeuralCore, ZKNeuralProvingType};

/// A witness callback double: replays a fixed status, payload and error
/// buffer, checking the capacities the bridge hands over.
struct WitnessStub {
    status: i32,
    witness: Vec<u8>,
    witness_len: usize,
    error_message: Vec<u8>,
}

impl GenerateWitnessCallback for WitnessStub {
    fn generate_witness(
        &self,
        _circuit_buffer: &[u8],
        _json_buffer: &[u8],
        witness_capacity: usize,
        error_capacity: usize,
    ) -> WitnessCallbackOutput {
        assert_eq!(witness_capacity, WITNESS_SIZE);
        assert_eq!(error_capacity, WITNESS_ERROR_MSG_MAXSIZE);
        WitnessCallbackOutput {
            status: self.status,
            witness: self.witness.clone(),
            witness_len: self.witness_len,
            error_message: self.error_message.clone(),
        }
    }
}

/// A proof callback double in the same style.
struct ProofStub {
    status: i32,
    proof: Vec<u8>,
    public_signals: Vec<u8>,
    error_message: Vec<u8>,
}

impl GenerateProofCallback for ProofStub {
    fn generate_proof(
        &self,
        _zkey_buffer: &[u8],
        _wtns_buffer: &[u8],
        proof_capacity: usize,
        public_capacity: usize,
        error_capacity: usize,
    ) -> ProofCallbackOutput {
        assert_eq!(proof_capacity, PROOF_SIZE);
        assert_eq!(public_capacity, PUB_SIGNALS_SIZE);
        assert_eq!(error_capacity, WITNESS_ERROR_MSG_MAXSIZE);
        ProofCallbackOutput {
            status: self.status,
            proof: self.proof.clone(),
            proof_len: self.proof.len(),
            public_signals: self.public_signals.clone(),
            public_len: self.public_signals.len(),
            error_message: self.error_message.clone(),
        }
    }
}

fn padded(message: &[u8]) -> Vec<u8> {
    let mut buf = message.to_vec();
    buf.resize(WITNESS_ERROR_MSG_MAXSIZE, 0);
    buf
}

#[test]
fn unconfigured_bridge_fails_typed() {
    let core: ZKNeuralCore<WitnessStub, ProofStub> = ZKNeuralCore::new();
    assert!(matches!(
        core.generate_witness(b"c", b"{}"),
        Err(ZKNeuralError::WitnessCallbackNotSet)
    ));
    assert!(matches!(
        core.generate_proof(b"z", b"w"),
        Err(ZKNeuralError::ProvingTypeNotSet)
    ));
    let mut core2: ZKNeuralCore<WitnessStub, ProofStub> = ZKNeuralCore::new();
    core2.set_proving_type(ZKNeuralProvingType::Groth);
    assert!(matches!(
        core2.generate_proof(b"z", b"w"),
        Err(ZKNeuralError::ProofCallbackNotSet)
    ));
}

#[test]
fn witness_success_truncates_to_reported_length() {
    let mut core: ZKNeuralCore<WitnessStub, ProofStub> = ZKNeuralCore::new();
    core.set_generate_witness_callback(WitnessStub {
        status: 0,
        witness: vec![1, 2, 3, 4, 5, 6, 7, 8],
        witness_len: 3,
        error_message: padded(b""),
    });
    assert_eq!(core.generate_witness(b"c", b"{}").unwrap(), vec![1, 2, 3]);
}

#[test]
fn witness_failure_reads_trimmed_error_buffer() {
    let mut core: ZKNeuralCore<WitnessStub, ProofStub> = ZKNeuralCore::new();
    core.set_generate_witness_callback(WitnessStub {
        status: 7,
        witness: Vec::new(),
        witness_len: 0,
        error_message: padded(b"witness exploded"),
    });
    match core.generate_witness(b"c", b"{}") {
        Err(ZKNeuralError::WitnessGenerationFailed(m)) => {
            assert_eq!(m, "witness exploded");
        },
        other => panic!("unexpected result: {:?}", other.map(|v| v.len())),
    }
}

#[test]
fn witness_failure_replaces_undecodable_bytes() {
    let mut core: ZKNeuralCore<WitnessStub, ProofStub> = ZKNeuralCore::new();
    core.set_generate_witness_callback(WitnessStub {
        status: 1,
        witness: Vec::new(),
        witness_len: 0,
        error_message: padded(b"bad\xFFbyte"),
    });
    match core.generate_witness(b"c", b"{}") {
        Err(ZKNeuralError::WitnessGenerationFailed(m)) => {
            assert_eq!(m, "bad\u{FFFD}byte");
        },
        other => panic!("unexpected result: {:?}", other.map(|v| v.len())),
    }
}

#[test]
fn proof_status_two_is_buffer_too_small() {
    // Whatever the error buffer holds, status two yields the fixed message.
    let out = ProofCallbackOutput {
        status: 2,
        proof: b"ignored".to_vec(),
        proof_len: 7,
        public_signals: Vec::new(),
        public_len: 0,
        error_message: padded(b"some other text"),
    };
    match interpret_proof_output(ZKNeuralProvingType::Groth, out) {
        Err(ZKNeuralError::ProofGenerationFailed(m)) => {
            assert_eq!(m, "Proof or public signals buffer is too short");
        },
        other => panic!("unexpected result: {:?}", other.map(|v| v.len())),
    }
}

#[test]
fn proof_scheme_dispatch() {
    let groth_points = b"{\"pi_a\":[\"1\"],\"pi_b\":[[\"2\"]],\"pi_c\":[\"3\"],\"proof_protocol\":\"groth16\"}";
    let signals = b"[\"1\",\"2\"]";

    let mut core: ZKNeuralCore<WitnessStub, ProofStub> = ZKNeuralCore::new();
    core.set_proving_type(ZKNeuralProvingType::Groth);
    core.set_generate_proof_callback(ProofStub {
        status: 0,
        proof: groth_points.to_vec(),
        public_signals: signals.to_vec(),
        error_message: padded(b""),
    });
    let document = core.generate_proof(b"z", b"w").unwrap();
    let expected = "{\"proof\":{\"pi_a\":[\"1\"],\"pi_b\":[[\"2\"]],\"pi_c\":[\"3\"],\"proof_protocol\":\"groth16\"},\"pub_signals\":[\"1\",\"2\"]}";
    assert_eq!(document, expected.as_bytes().to_vec());

    // The same callback shape under the other scheme is a decoding error.
    let mut strict: ZKNeuralCore<WitnessStub, ProofStub> = ZKNeuralCore::new();
    strict.set_proving_type(ZKNeuralProvingType::UltraGroth);
    strict.set_generate_proof_callback(ProofStub {
        status: 0,
        proof: groth_points.to_vec(),
        public_signals: signals.to_vec(),
        error_message: padded(b""),
    });
    assert!(matches!(
        strict.generate_proof(b"z", b"w"),
        Err(ZKNeuralError::JsonError(_))
    ));
}

#[test]
fn proof_ultra_groth_document() {
    let ultra_points = b"{\"pi_a\":[\"1\"],\"pi_b\":[[\"2\"]],\"pi_f\":[\"3\"],\"pi_r\":[\"4\"]}";
    let mut core: ZKNeuralCore<WitnessStub, ProofStub> = ZKNeuralCore::new();
    core.set_proving_type(ZKNeuralProvingType::UltraGroth);
    core.set_generate_proof_callback(ProofStub {
        status: 0,
        proof: ultra_points.to_vec(),
        public_signals: b"[]".to_vec(),
        error_message: padded(b""),
    });
    let document = core.generate_proof(b"z", b"w").unwrap();
    let expected = "{\"proof\":{\"pi_a\":[\"1\"],\"pi_b\":[[\"2\"]],\"pi_f\":[\"3\"],\"pi_r\":[\"4\"]},\"pub_signals\":[]}";
    assert_eq!(document, expected.as_bytes().to_vec());
}

#[test]
fn proof_failure_reads_error_buffer() {
    let mut core: ZKNeuralCore<WitnessStub, ProofStub> = ZKNeuralCore::new();
    core.set_proving_type(ZKNeuralProvingType::Groth);
    core.set_generate_proof_callback(ProofStub {
        status: 5,
        proof: Vec::new(),
        public_signals: Vec::new(),
        error_message: padded(b"prover said no"),
    });
    match core.generate_proof(b"z", b"w") {
        Err(ZKNeuralError::ProofGenerationFailed(m)) => {
            assert_eq!(m, "prover said no");
        },
        other => panic!("unexpected result: {:?}", other.map(|v| v.len())),
    }
}

#[test]
fn error_messages() {
    assert_eq!(ZKNeuralError::FaceNotFound.message(), "Face not found");
    assert_eq!(ZKNeuralError::ProvingTypeNotSet.message(), "Proving type not set");
    assert_eq!(
        ZKNeuralError::WitnessGenerationFailed("x".to_string()).message(),
        "Witness generation failed: x",
    );
    assert_eq!(
        ZKNeuralError::ModelNotFourDimensional.message(),
        "TensorFlow Lite model does not have four dimensions",
    );
    assert_eq!(
        ZKNeuralError::TensorFlowLiteError("engine".to_string()).message(),
        "TensorFlow Lite error: engine",
    );
    assert_eq!(ZKNeuralError::InvalidModelChannel.message(), "TenserFlow Lite Model have invalid channel");
    assert_eq!(ZKNeuralError::InvalidModelDataType.message(), "TenserFlow Lite Model have invalid data type");
}
