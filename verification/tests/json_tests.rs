use zkneural::digits::{dec_string_i64, dec_string_u64, i64_to_dec, u64_to_dec};
use zkneural::inputs::BionettaGenericInputs;
use zkneural::json::{push_json_int_array, push_json_string, push_json_string_array};
use zkneural::zk_proof::{GrothZkProof, GrothZkProofPoints, UltraGrothProof, UltraGrothProofPoints};

fn strings(items: &[&str]) -> Vec<String> {
    items.iter().map(|s| s.to_string()).collect()
}

#[test]
fn decimal_rendering() {
    assert_eq!(u64_to_dec(0), b"0".to_vec());
    assert_eq!(u64_to_dec(18446744073709551615), b"18446744073709551615".to_vec());
    assert_eq!(i64_to_dec(-123), b"-123".to_vec());
    assert_eq!(i64_to_dec(-9223372036854775808), b"-9223372036854775808".to_vec());
    assert_eq!(dec_string_u64(40500), "40500".to_string());
    assert_eq!(dec_string_i64(-7), "-7".to_string());
    assert_eq!(dec_string_i64(0), "0".to_string());
}

#[test]
fn string_escaping_matches_reference_encoder() {
    let cases = ["plain", "with \"quotes\"", "back\\slash", "ctrl\u{1}\u{1f}", "tab\tnl\nfe\u{c}cr\rbs\u{8}", "caf\u{e9} \u{1F600}", ""];
    for case in cases {
        let mut ours: Vec<u8> = Vec::new();
        push_json_string(&mut ours, case);
        let reference = serde_json::to_vec(case).unwrap();
        assert_eq!(ours, reference);
    }
}

#[test]
fn string_array_matches_reference_encoder() {
    let values = strings(&["1", "two", "dr\u{fc}ben"]);
    let mut ours: Vec<u8> = Vec::new();
    push_json_string_array(&mut ours, &values);
    assert_eq!(ours, serde_json::to_vec(&values).unwrap());
    let empty: Vec<String> = Vec::new();
    let mut ours2: Vec<u8> = Vec::new();
    push_json_string_array(&mut ours2, &empty);
    assert_eq!(ours2, b"[]".to_vec());
}

#[test]
fn int_array_matches_reference_encoder() {
    let values: Vec<i64> = vec![0, -1, 255, -32768, 9223372036854775807];
    let mut ours: Vec<u8> = Vec::new();
    push_json_int_array(&mut ours, &values);
    assert_eq!(ours, serde_json::to_vec(&values).unwrap());
}

#[test]
fn circuit_input_document_bytes() {
    let doc = BionettaGenericInputs::new(
        "42".to_string(),
        "1".to_string(),
        "1".to_string(),
        strings(&["16384", "32768"]),
        strings(&["128", "257"]),
    );
    assert_eq!(doc.ultra_groth, "1");
    assert_eq!(doc.rand, "0");
    let encoded = doc.to_json_bytes();
    let expected = "{\"ultra_groth\":\"1\",\"address\":\"42\",\"threshold\":\"1\",\"nonce\":\"1\",\"features\":[\"16384\",\"32768\"],\"image\":[\"128\",\"257\"],\"rand\":\"0\"}";
    assert_eq!(encoded, expected.as_bytes().to_vec());
}

#[test]
fn groth_proof_document_bytes() {
    let doc = GrothZkProof {
        proof: GrothZkProofPoints {
            pi_a: strings(&["1", "2"]),
            pi_b: vec![strings(&["3", "4"]), strings(&["5"])],
            pi_c: strings(&["6"]),
            proof_protocol: "groth16".to_string(),
        },
        pub_signals: strings(&["7", "8"]),
    };
    let expected = "{\"proof\":{\"pi_a\":[\"1\",\"2\"],\"pi_b\":[[\"3\",\"4\"],[\"5\"]],\"pi_c\":[\"6\"],\"proof_protocol\":\"groth16\"},\"pub_signals\":[\"7\",\"8\"]}";
    assert_eq!(doc.to_json_bytes(), expected.as_bytes().to_vec());
}

#[test]
fn ultra_groth_proof_document_bytes() {
    let doc = UltraGrothProof {
        proof: UltraGrothProofPoints {
            pi_a: strings(&["1"]),
            pi_b: vec![strings(&["2", "3"])],
            pi_f: strings(&["4"]),
            pi_r: strings(&["5"]),
        },
        pub_signals: Vec::new(),
    };
    let expected = "{\"proof\":{\"pi_a\":[\"1\"],\"pi_b\":[[\"2\",\"3\"]],\"pi_f\":[\"4\"],\"pi_r\":[\"5\"]},\"pub_signals\":[]}";
    assert_eq!(doc.to_json_bytes(), expected.as_bytes().to_vec());
}
