use zkneural::parse::{parse_groth_points, parse_pub_signals, parse_ultra_groth_points};

#[test]
fn groth_points_canonical() {
    let bytes = b"{\"pi_a\":[\"1\",\"2\"],\"pi_b\":[[\"3\",\"4\"]],\"pi_c\":[\"5\"],\"proof_protocol\":\"groth16\"}";
    let p = parse_groth_points(bytes).unwrap();
    assert_eq!(p.pi_a, vec!["1".to_string(), "2".to_string()]);
    assert_eq!(p.pi_b, vec![vec!["3".to_string(), "4".to_string()]]);
    assert_eq!(p.pi_c, vec!["5".to_string()]);
    assert_eq!(p.proof_protocol, "groth16");
}

#[test]
fn groth_points_whitespace_and_order() {
    let bytes = b" { \"proof_protocol\" : \"groth16\" ,\n\t\"pi_c\": [ ] , \"pi_b\" : [ [ \"3\" ] , [ ] ] , \"pi_a\" : [ \"1\" ] } \r\n";
    let p = parse_groth_points(bytes).unwrap();
    assert_eq!(p.pi_a, vec!["1".to_string()]);
    assert_eq!(p.pi_b, vec![vec!["3".to_string()], Vec::<String>::new()]);
    assert!(p.pi_c.is_empty());
    assert_eq!(p.proof_protocol, "groth16");
}

#[test]
fn groth_points_escapes() {
    let bytes = b"{\"pi_a\":[\"\\u0041\\n\\t\\\"\\\\\\/\"],\"pi_b\":[],\"pi_c\":[\"\\ud83d\\ude00\"],\"proof_protocol\":\"p\"}";
    let p = parse_groth_points(bytes).unwrap();
    assert_eq!(p.pi_a, vec!["A\n\t\"\\/".to_string()]);
    assert_eq!(p.pi_c, vec!["\u{1F600}".to_string()]);
}

#[test]
fn groth_points_rejects_bad_shapes() {
    // a missing field
    assert!(parse_groth_points(b"{\"pi_a\":[],\"pi_b\":[],\"pi_c\":[]}").is_none());
    // a repeated field
    assert!(parse_groth_points(
        b"{\"pi_a\":[],\"pi_a\":[],\"pi_b\":[],\"pi_c\":[],\"proof_protocol\":\"p\"}",
    ).is_none());
    // a field the shape does not declare
    assert!(parse_groth_points(
        b"{\"pi_a\":[],\"pi_b\":[],\"pi_c\":[],\"proof_protocol\":\"p\",\"extra\":[]}",
    ).is_none());
    // trailing content after the object
    assert!(parse_groth_points(
        b"{\"pi_a\":[],\"pi_b\":[],\"pi_c\":[],\"proof_protocol\":\"p\"}x",
    ).is_none());
    // a lone surrogate escape
    assert!(parse_groth_points(
        b"{\"pi_a\":[\"\\ud800\"],\"pi_b\":[],\"pi_c\":[],\"proof_protocol\":\"p\"}",
    ).is_none());
    // an unescaped control byte inside a string
    assert!(parse_groth_points(
        b"{\"pi_a\":[\"a\x01b\"],\"pi_b\":[],\"pi_c\":[],\"proof_protocol\":\"p\"}",
    ).is_none());
    // invalid UTF-8 inside a string
    assert!(parse_groth_points(
        b"{\"pi_a\":[\"a\xFFb\"],\"pi_b\":[],\"pi_c\":[],\"proof_protocol\":\"p\"}",
    ).is_none());
    // not an object at all
    assert!(parse_groth_points(b"[\"1\"]").is_none());
    assert!(parse_groth_points(b"").is_none());
}

#[test]
fn ultra_groth_points_canonical() {
    let bytes = b"{\"pi_a\":[\"1\"],\"pi_b\":[[\"2\"]],\"pi_f\":[\"3\"],\"pi_r\":[\"4\"]}";
    let p = parse_ultra_groth_points(bytes).unwrap();
    assert_eq!(p.pi_a, vec!["1".to_string()]);
    assert_eq!(p.pi_b, vec![vec!["2".to_string()]]);
    assert_eq!(p.pi_f, vec!["3".to_string()]);
    assert_eq!(p.pi_r, vec!["4".to_string()]);
}

#[test]
fn scheme_shapes_do_not_cross_parse() {
    let groth = b"{\"pi_a\":[\"1\"],\"pi_b\":[[\"2\"]],\"pi_c\":[\"3\"],\"proof_protocol\":\"groth16\"}";
    let ultra = b"{\"pi_a\":[\"1\"],\"pi_b\":[[\"2\"]],\"pi_f\":[\"3\"],\"pi_r\":[\"4\"]}";
    assert!(parse_groth_points(groth).is_some());
    assert!(parse_ultra_groth_points(groth).is_none());
    assert!(parse_ultra_groth_points(ultra).is_some());
    assert!(parse_groth_points(ultra).is_none());
}

#[test]
fn pub_signals_shapes() {
    assert_eq!(parse_pub_signals(b"[\"1\",\"2\"]").unwrap(), vec!["1".to_string(), "2".to_string()]);
    assert_eq!(parse_pub_signals(b" [ ] ").unwrap(), Vec::<String>::new());
    assert!(parse_pub_signals(b"[1]").is_none());
    assert!(parse_pub_signals(b"{\"a\":1}").is_none());
    assert!(parse_pub_signals(b"[\"1\"] tail").is_none());
    assert!(parse_pub_signals(b"[\"1\",]").is_none());
}
