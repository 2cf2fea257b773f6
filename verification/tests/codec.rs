//! The wire codec: frames, escaping, and the rendered payload documents,
//! cross-checked against an independent JSON parser.

use kms::Package;
use kms::codec::{
    decode, encode, render_account_keys_payload, render_error_payload, render_new_user_payload,
    render_salt_payload, render_validate_key_payload,
};

#[test]
fn encode_produces_newline_terminated_json() {
    let package = Package {
        header: String::from("GOOD"),
        payload: String::from("{\"salt\":[1,2]}"),
    };
    let frame = encode(&package);
    assert!(frame.ends_with('\n'));
    assert_eq!(
        frame,
        "{\"header\":\"GOOD\",\"payload\":\"{\\\"salt\\\":[1,2]}\"}\n"
    );
}

#[test]
fn encode_then_parse_with_serde_restores_fields() {
    let package = Package {
        header: String::from("CREATE_KANJI"),
        payload: String::from("{\"symbol\":\"語\",\"meaning\":\"word \\\"quoted\\\"\"}"),
    };
    let frame = encode(&package);
    let value: serde_json::Value = serde_json::from_str(frame.trim_end()).unwrap();
    assert_eq!(value["header"].as_str().unwrap(), "CREATE_KANJI");
    assert_eq!(
        value["payload"].as_str().unwrap(),
        "{\"symbol\":\"語\",\"meaning\":\"word \\\"quoted\\\"\"}"
    );
}

#[test]
fn encode_escapes_control_characters() {
    let package = Package {
        header: String::from("A\nB"),
        payload: String::new(),
    };
    let frame = encode(&package);
    assert_eq!(frame, "{\"header\":\"A\\u000aB\",\"payload\":\"\"}\n");
    let value: serde_json::Value = serde_json::from_str(frame.trim_end()).unwrap();
    assert_eq!(value["header"].as_str().unwrap(), "A\nB");
}

#[test]
fn decode_reads_a_frame() {
    let package = decode("{\"header\":\"GOOD\",\"payload\":\"{}\"}").unwrap();
    assert_eq!(package.header, "GOOD");
    assert_eq!(package.payload, "{}");
}

#[test]
fn decode_accepts_reordered_fields_and_whitespace() {
    let package = decode(" { \"payload\" : \"p\" , \"header\" : \"h\" } ").unwrap();
    assert_eq!(package.header, "h");
    assert_eq!(package.payload, "p");
}

#[test]
fn decode_rejects_malformed_frames() {
    assert!(decode("not json").is_none());
    assert!(decode("{\"header\":\"GOOD\"}").is_none());
    assert!(decode("{\"header\":7,\"payload\":\"x\"}").is_none());
    assert!(decode("").is_none());
}

#[test]
fn decode_of_encode_round_trips() {
    let package = Package {
        header: String::from("VALIDATE_KEY"),
        payload: String::from("{\"user_username\":\"ana\",\"user_hash\":[0,255]}"),
    };
    let frame = encode(&package);
    let back = decode(frame.trim_end()).unwrap();
    assert_eq!(back.header, package.header);
    assert_eq!(back.payload, package.payload);
}

#[test]
fn salt_payload_renders_byte_array() {
    let out = render_salt_payload(&vec![0, 9, 10, 99, 100, 255]);
    assert_eq!(out, "{\"salt\":[0,9,10,99,100,255]}");
    let out = render_salt_payload(&Vec::new());
    assert_eq!(out, "{\"salt\":[]}");
}

#[test]
fn error_payload_renders_message() {
    let out = render_error_payload("Request body format is ill-formed!");
    assert_eq!(out, "{\"error\":\"Request body format is ill-formed!\"}");
}

#[test]
fn request_payload_builders_render_documents() {
    assert_eq!(
        render_account_keys_payload("ana"),
        "{\"user_username\":\"ana\"}"
    );
    assert_eq!(
        render_validate_key_payload("ana", &vec![1, 2]),
        "{\"user_username\":\"ana\",\"user_hash\":[1,2]}"
    );
    assert_eq!(
        render_new_user_payload("ana", &vec![1], &vec![2]),
        "{\"username\":\"ana\",\"hash\":[1],\"salt\":[2]}"
    );
}
