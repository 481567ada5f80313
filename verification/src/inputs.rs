//! The canonical circuit-input document.
//!
//! One record ties the caller's identity parameters to the quantized feature
//! and image signals; it is serialized once, in a fixed field order, as the
//! single input the downstream circuit receives.

use crate::json::{json_string, json_string_array, push_json_string, push_json_string_array,
    push_str_bytes};
use vstd::prelude::*;
use vstd::utf8::encode_utf8;

verus! {

/// The circuit-input document: a proving-type marker, the caller's identity
/// parameters, the two signal sequences, and a randomness placeholder.
pub struct BionettaGenericInputs {
    pub ultra_groth: String,
    pub address: String,
    pub threshold: String,
    pub nonce: String,
    pub features: Vec<String>,
    pub image: Vec<String>,
    pub rand: String,
}

/// The canonical JSON object of a circuit-input document.
pub open spec fn json_of_inputs(
    ultra_groth: Seq<char>,
    address: Seq<char>,
    threshold: Seq<char>,
    nonce: Seq<char>,
    features: Seq<Seq<char>>,
    image: Seq<Seq<char>>,
    rand: Seq<char>,
) -> Seq<u8> {
    encode_utf8("{\"ultra_groth\":"@) + json_string(ultra_groth) + encode_utf8(",\"address\":"@)
        + json_string(address) + encode_utf8(",\"threshold\":"@) + json_string(threshold)
        + encode_utf8(",\"nonce\":"@) + json_string(nonce) + encode_utf8(",\"features\":"@)
        + json_string_array(features) + encode_utf8(",\"image\":"@) + json_string_array(image)
        + encode_utf8(",\"rand\":"@) + json_string(rand) + encode_utf8("}"@)
}

impl BionettaGenericInputs {
    /// The canonical JSON bytes of this document.
    pub open spec fn json_spec(&self) -> Seq<u8> {
        json_of_inputs(
            self.ultra_groth@,
            self.address@,
            self.threshold@,
            self.nonce@,
            self.features.deep_view(),
            self.image.deep_view(),
            self.rand@,
        )
    }

    /// A document for the given identity parameters and signals, with the
    /// proving-type marker set to `"1"` and the randomness placeholder to
    /// `"0"`.
    pub fn new(
        address: String,
        threshold: String,
        nonce: String,
        features: Vec<String>,
        image: Vec<String>,
    ) -> (r: Self)
        ensures
            r.ultra_groth@ == "1"@,
            r.address == address,
            r.threshold == threshold,
            r.nonce == nonce,
            r.features == features,
            r.image == image,
            r.rand@ == "0"@,
    {
        BionettaGenericInputs {
            ultra_groth: String::from_str("1"),
            address,
            threshold,
            nonce,
            features,
            image,
            rand: String::from_str("0"),
        }
    }

    /// The canonical JSON encoding of this document.
    pub fn to_json_bytes(&self) -> (r: Vec<u8>)
        ensures
            r@ == self.json_spec(),
    {
        let mut out: Vec<u8> = Vec::new();
        push_str_bytes(&mut out, "{\"ultra_groth\":");
        push_json_string(&mut out, self.ultra_groth.as_str());
        push_str_bytes(&mut out, ",\"address\":");
        push_json_string(&mut out, self.address.as_str());
        push_str_bytes(&mut out, ",\"threshold\":");
        push_json_string(&mut out, self.threshold.as_str());
        push_str_bytes(&mut out, ",\"nonce\":");
        push_json_string(&mut out, self.nonce.as_str());
        push_str_bytes(&mut out, ",\"features\":");
        push_json_string_array(&mut out, &self.features);
        push_str_bytes(&mut out, ",\"image\":");
        push_json_string_array(&mut out, &self.image);
        push_str_bytes(&mut out, ",\"rand\":");
        push_json_string(&mut out, self.rand.as_str());
        push_str_bytes(&mut out, "}");
        proof {
            assert(out@ =~= self.json_spec());
        }
        out
    }
}

} // verus!
