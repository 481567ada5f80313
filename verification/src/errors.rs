//! The error taxonomy of the library.
//!
//! Every failure of a pipeline or proving operation is reported as one of
//! these variants; none is retried internally. Failures coming from the
//! external collaborators (image codec, inference engine, JSON primitive)
//! carry the collaborator's message as a plain string.

use vstd::prelude::*;
use vstd::string::*;

verus! {

/// One error per failure class of the pipeline and of the proving bridge.
#[derive(Debug)]
pub enum ZKNeuralError {
    /// The image codec could not decode or transform the picture.
    ImageProcessingError(String),
    /// A JSON document could not be decoded or encoded.
    JsonError(String),
    /// The inference engine rejected the model or the invocation.
    TensorFlowLiteError(String),
    /// `generate_witness` was called before a witness callback was set.
    WitnessCallbackNotSet,
    /// `generate_proof` was called before a proof callback was set.
    ProofCallbackNotSet,
    /// The witness callback reported a failure; carries its message.
    WitnessGenerationFailed(String),
    /// The proof callback reported a failure; carries its message.
    ProofGenerationFailed(String),
    /// `generate_proof` was called before a proving type was selected.
    ProvingTypeNotSet,
    /// The model's input tensor does not have exactly four dimensions.
    ModelNotFourDimensional,
    /// The model declares a channel count other than one or three.
    InvalidModelChannel,
    /// The model declares an element type the pipeline cannot encode.
    InvalidModelDataType,
    /// No anchor scored at or above the detection floor.
    FaceNotFound,
}

impl ZKNeuralError {
    /// The human-readable message of this error, one fixed phrase per
    /// variant, with the collaborator's message appended where one is carried.
    pub fn message(&self) -> (r: String)
        ensures
            r@ == self.message_spec(),
    {
        match self {
            ZKNeuralError::ImageProcessingError(m) => {
                String::from_str("Image processing error: ").concat(m.as_str())
            },
            ZKNeuralError::JsonError(m) => String::from_str("JSON error: ").concat(m.as_str()),
            ZKNeuralError::TensorFlowLiteError(m) => {
                String::from_str("TensorFlow Lite error: ").concat(m.as_str())
            },
            ZKNeuralError::WitnessCallbackNotSet => {
                String::from_str("Generate witness callback not set")
            },
            ZKNeuralError::ProofCallbackNotSet => {
                String::from_str("Generate proof callback not set")
            },
            ZKNeuralError::WitnessGenerationFailed(m) => {
                String::from_str("Witness generation failed: ").concat(m.as_str())
            },
            ZKNeuralError::ProofGenerationFailed(m) => {
                String::from_str("Proof generation failed: ").concat(m.as_str())
            },
            ZKNeuralError::ProvingTypeNotSet => String::from_str("Proving type not set"),
            ZKNeuralError::ModelNotFourDimensional => {
                String::from_str("TensorFlow Lite model does not have four dimensions")
            },
            ZKNeuralError::InvalidModelChannel => {
                String::from_str("TenserFlow Lite Model have invalid channel")
            },
            ZKNeuralError::InvalidModelDataType => {
                String::from_str("TenserFlow Lite Model have invalid data type")
            },
            ZKNeuralError::FaceNotFound => String::from_str("Face not found"),
        }
    }

    /// The message of each variant, as a sequence of characters.
    pub open spec fn message_spec(&self) -> Seq<char> {
        match self {
            ZKNeuralError::ImageProcessingError(m) => "Image processing error: "@ + m@,
            ZKNeuralError::JsonError(m) => "JSON error: "@ + m@,
            ZKNeuralError::TensorFlowLiteError(m) => "TensorFlow Lite error: "@ + m@,
            ZKNeuralError::WitnessCallbackNotSet => "Generate witness callback not set"@,
            ZKNeuralError::ProofCallbackNotSet => "Generate proof callback not set"@,
            ZKNeuralError::WitnessGenerationFailed(m) => "Witness generation failed: "@ + m@,
            ZKNeuralError::ProofGenerationFailed(m) => "Proof generation failed: "@ + m@,
            ZKNeuralError::ProvingTypeNotSet => "Proving type not set"@,
            ZKNeuralError::ModelNotFourDimensional => {
                "TensorFlow Lite model does not have four dimensions"@
            },
            ZKNeuralError::InvalidModelChannel => "TenserFlow Lite Model have invalid channel"@,
            ZKNeuralError::InvalidModelDataType => "TenserFlow Lite Model have invalid data type"@,
            ZKNeuralError::FaceNotFound => "Face not found"@,
        }
    }
}

} // verus!
