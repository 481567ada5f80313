//! The two proof-document shapes and their canonical JSON encodings.
//!
//! A Groth document carries three curve points and a protocol tag; an
//! UltraGroth document carries two points and two auxiliary point sets. Both
//! carry the public-signal sequence beside the points.

use crate::json::{
    json_string, json_string_array, json_string_matrix, push_json_string, push_json_string_array,
    push_json_string_matrix, push_str_bytes,
};
use vstd::prelude::*;
use vstd::utf8::encode_utf8;

verus! {

/// The public-signal sequence attached to every proof document.
pub type ZkProofPubSignals = Vec<String>;

/// The points of a Groth proof.
pub struct GrothZkProofPoints {
    pub pi_a: Vec<String>,
    pub pi_b: Vec<Vec<String>>,
    pub pi_c: Vec<String>,
    pub proof_protocol: String,
}

/// A Groth proof document: points and public signals.
pub struct GrothZkProof {
    pub proof: GrothZkProofPoints,
    pub pub_signals: ZkProofPubSignals,
}

/// The points of an UltraGroth proof.
pub struct UltraGrothProofPoints {
    pub pi_a: Vec<String>,
    pub pi_b: Vec<Vec<String>>,
    pub pi_f: Vec<String>,
    pub pi_r: Vec<String>,
}

/// An UltraGroth proof document: points and public signals.
pub struct UltraGrothProof {
    pub proof: UltraGrothProofPoints,
    pub pub_signals: ZkProofPubSignals,
}

/// The canonical JSON object of a Groth point set.
pub open spec fn json_of_groth_points(
    pi_a: Seq<Seq<char>>,
    pi_b: Seq<Seq<Seq<char>>>,
    pi_c: Seq<Seq<char>>,
    proof_protocol: Seq<char>,
) -> Seq<u8> {
    encode_utf8("{\"pi_a\":"@) + json_string_array(pi_a) + encode_utf8(",\"pi_b\":"@)
        + json_string_matrix(pi_b) + encode_utf8(",\"pi_c\":"@) + json_string_array(pi_c)
        + encode_utf8(",\"proof_protocol\":"@) + json_string(proof_protocol) + encode_utf8("}"@)
}

/// The canonical JSON object of an UltraGroth point set.
pub open spec fn json_of_ultra_groth_points(
    pi_a: Seq<Seq<char>>,
    pi_b: Seq<Seq<Seq<char>>>,
    pi_f: Seq<Seq<char>>,
    pi_r: Seq<Seq<char>>,
) -> Seq<u8> {
    encode_utf8("{\"pi_a\":"@) + json_string_array(pi_a) + encode_utf8(",\"pi_b\":"@)
        + json_string_matrix(pi_b) + encode_utf8(",\"pi_f\":"@) + json_string_array(pi_f)
        + encode_utf8(",\"pi_r\":"@) + json_string_array(pi_r) + encode_utf8("}"@)
}

/// The canonical JSON object of a whole proof document, given the encoded
/// point object and the public signals.
pub open spec fn json_of_proof_document(points: Seq<u8>, pub_signals: Seq<Seq<char>>) -> Seq<u8> {
    encode_utf8("{\"proof\":"@) + points + encode_utf8(",\"pub_signals\":"@) + json_string_array(
        pub_signals,
    ) + encode_utf8("}"@)
}

impl GrothZkProofPoints {
    /// The canonical JSON bytes of this point set.
    pub open spec fn json_spec(&self) -> Seq<u8> {
        json_of_groth_points(
            self.pi_a.deep_view(),
            self.pi_b.deep_view(),
            self.pi_c.deep_view(),
            self.proof_protocol@,
        )
    }

    /// Appends the canonical JSON encoding of this point set to `out`.
    pub fn push_json(&self, out: &mut Vec<u8>)
        ensures
            final(out)@ == old(out)@ + self.json_spec(),
    {
        let ghost start = out@;
        push_str_bytes(out, "{\"pi_a\":");
        push_json_string_array(out, &self.pi_a);
        push_str_bytes(out, ",\"pi_b\":");
        push_json_string_matrix(out, &self.pi_b);
        push_str_bytes(out, ",\"pi_c\":");
        push_json_string_array(out, &self.pi_c);
        push_str_bytes(out, ",\"proof_protocol\":");
        push_json_string(out, self.proof_protocol.as_str());
        push_str_bytes(out, "}");
        proof {
            assert(out@ =~= start + self.json_spec());
        }
    }
}

impl UltraGrothProofPoints {
    /// The canonical JSON bytes of this point set.
    pub open spec fn json_spec(&self) -> Seq<u8> {
        json_of_ultra_groth_points(
            self.pi_a.deep_view(),
            self.pi_b.deep_view(),
            self.pi_f.deep_view(),
            self.pi_r.deep_view(),
        )
    }

    /// Appends the canonical JSON encoding of this point set to `out`.
    pub fn push_json(&self, out: &mut Vec<u8>)
        ensures
            final(out)@ == old(out)@ + self.json_spec(),
    {
        let ghost start = out@;
        push_str_bytes(out, "{\"pi_a\":");
        push_json_string_array(out, &self.pi_a);
        push_str_bytes(out, ",\"pi_b\":");
        push_json_string_matrix(out, &self.pi_b);
        push_str_bytes(out, ",\"pi_f\":");
        push_json_string_array(out, &self.pi_f);
        push_str_bytes(out, ",\"pi_r\":");
        push_json_string_array(out, &self.pi_r);
        push_str_bytes(out, "}");
        proof {
            assert(out@ =~= start + self.json_spec());
        }
    }
}

impl GrothZkProof {
    /// The canonical JSON bytes of this document.
    pub open spec fn json_spec(&self) -> Seq<u8> {
        json_of_proof_document(self.proof.json_spec(), self.pub_signals.deep_view())
    }

    /// The canonical JSON encoding of this document.
    pub fn to_json_bytes(&self) -> (r: Vec<u8>)
        ensures
            r@ == self.json_spec(),
    {
        let mut out: Vec<u8> = Vec::new();
        push_str_bytes(&mut out, "{\"proof\":");
        self.proof.push_json(&mut out);
        push_str_bytes(&mut out, ",\"pub_signals\":");
        push_json_string_array(&mut out, &self.pub_signals);
        push_str_bytes(&mut out, "}");
        proof {
            assert(out@ =~= self.json_spec());
        }
        out
    }
}

impl UltraGrothProof {
    /// The canonical JSON bytes of this document.
    pub open spec fn json_spec(&self) -> Seq<u8> {
        json_of_proof_document(self.proof.json_spec(), self.pub_signals.deep_view())
    }

    /// The canonical JSON encoding of this document.
    pub fn to_json_bytes(&self) -> (r: Vec<u8>)
        ensures
            r@ == self.json_spec(),
    {
        let mut out: Vec<u8> = Vec::new();
        push_str_bytes(&mut out, "{\"proof\":");
        self.proof.push_json(&mut out);
        push_str_bytes(&mut out, ",\"pub_signals\":");
        push_json_string_array(&mut out, &self.pub_signals);
        push_str_bytes(&mut out, "}");
        proof {
            assert(out@ =~= self.json_spec());
        }
        out
    }
}

} // verus!
