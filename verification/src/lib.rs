//! Turns a photograph into a deterministic, fixed-point feature vector for a
//! zero-knowledge circuit, and marshals witness/proof computation across a
//! native callback boundary.
//!
//! The numeric pipeline — anchor decoding, quantization, byte layout, JSON
//! framing and the interpretation of everything the native proving routines
//! report — is verified. The inference engine, the image codec and the two
//! proving routines themselves are external collaborators, reached through
//! narrow trusted declarations or composed by the embedding application.

pub mod callbacks;
pub mod constants;
pub mod digits;
pub mod errors;
pub mod face_anchors;
pub mod face_detection;
pub mod inputs;
pub mod json;
pub mod parse;
pub mod pixel;
pub mod proving;
pub mod quantize;
pub mod tensor;
pub mod zk_proof;

pub use errors::ZKNeuralError;
pub use proving::{ZKNeuralCore, ZKNeuralProvingType};
