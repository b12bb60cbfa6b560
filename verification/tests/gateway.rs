use shush_rs::codec::DecodeFailure;
use shush_rs::gateway::{
    decrypt_outcome, decrypt_request, encrypt_outcome, encrypt_request, plaintext_argument,
    DecryptOutput, DecryptReply, Failure,
};
use shush_rs::key::Key;

#[test]
fn encrypt_request_names_the_key_by_its_text() {
    let request = encrypt_request(Key::from("test-key"), "super secret");
    assert_eq!(request.key_id, "alias/test-key");
    assert_eq!(request.plaintext, b"super secret".to_vec());
    let request = encrypt_request(Key::Id(0x550e8400e29b41d4a716446655440000), "é");
    assert_eq!(request.key_id, "550e8400-e29b-41d4-a716-446655440000");
    assert_eq!(request.plaintext, vec![0xc3, 0xa9]);
}

#[test]
fn encrypt_outcome_is_the_envelope_of_the_ciphertext() {
    assert_eq!(encrypt_outcome(Ok(Some(b"hello".to_vec())), false), Ok("aGVsbG8=".to_string()));
    assert_eq!(encrypt_outcome(Ok(Some(b"hello".to_vec())), true), Ok("aGVsbG8".to_string()));
}

#[test]
fn encrypt_outcome_without_ciphertext_is_a_failure() {
    assert_eq!(encrypt_outcome(Ok(None), false), Err(Failure::NoCiphertext));
}

#[test]
fn encrypt_outcome_of_a_failed_call_carries_the_account() {
    assert_eq!(
        encrypt_outcome(Err("key not found".to_string()), true),
        Err(Failure::Remote("key not found".to_string()))
    );
}

#[test]
fn decrypt_request_holds_the_bytes_of_the_envelope() {
    assert_eq!(decrypt_request("aGVsbG8=", false), Ok(b"hello".to_vec()));
    assert_eq!(decrypt_request("aGVsbG8", true), Ok(b"hello".to_vec()));
}

#[test]
fn decrypt_request_of_a_malformed_envelope_fails() {
    assert_eq!(
        decrypt_request("aGVsbG8", false),
        Err(Failure::Decode(DecodeFailure::InvalidPadding))
    );
    assert!(matches!(decrypt_request("not base64!", false), Err(Failure::Decode(_))));
}

#[test]
fn decrypt_outcome_carries_key_and_plaintext() {
    let reply = DecryptReply {
        key_id: Some("arn:aws:kms:eu-west-1:1:key/k".to_string()),
        plaintext: Some(b"super secret".to_vec()),
    };
    assert_eq!(
        decrypt_outcome(Ok(reply)),
        Ok(DecryptOutput {
            key_id: "arn:aws:kms:eu-west-1:1:key/k".to_string(),
            plain_text: "super secret".to_string(),
        })
    );
}

#[test]
fn decrypt_outcome_without_key_has_an_empty_key() {
    let reply = DecryptReply { key_id: None, plaintext: Some(b"x".to_vec()) };
    assert_eq!(
        decrypt_outcome(Ok(reply)),
        Ok(DecryptOutput { key_id: String::new(), plain_text: "x".to_string() })
    );
}

#[test]
fn decrypt_outcome_without_plaintext_is_a_failure() {
    let reply = DecryptReply { key_id: Some("k".to_string()), plaintext: None };
    assert_eq!(decrypt_outcome(Ok(reply)), Err(Failure::NoPlaintext));
}

#[test]
fn decrypt_outcome_of_a_failed_call_carries_the_account() {
    assert_eq!(
        decrypt_outcome(Err("access denied".to_string())),
        Err(Failure::Remote("access denied".to_string()))
    );
}

#[test]
fn decrypt_outcome_replaces_ill_formed_bytes() {
    let reply = DecryptReply { key_id: None, plaintext: Some(vec![b'a', 0xff, b'b']) };
    let output = decrypt_outcome(Ok(reply)).unwrap();
    assert_eq!(output.plain_text, "a\u{fffd}b");
}

#[test]
fn printed_is_the_key_or_the_plaintext() {
    let output = DecryptOutput { key_id: "k".to_string(), plain_text: "p".to_string() };
    assert_eq!(output.clone().printed(true), "k");
    assert_eq!(output.printed(false), "p");
}

#[test]
fn plaintext_argument_trims_on_request_only() {
    assert_eq!(plaintext_argument("  secret \n", true), "secret");
    assert_eq!(plaintext_argument("  secret \n", false), "  secret \n");
    assert_eq!(plaintext_argument("a b", true), "a b");
}
