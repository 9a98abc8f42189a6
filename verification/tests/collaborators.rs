use mc_proxy::encrypt::{
    check_encryption_response, create_encryption_request, encryption_request,
    generate_verify_token, handle_encryption_response, same_bytes, EncryptionError,
    VERIFY_TOKEN_LENGTH,
};
use mc_proxy::info_messages;
use mc_proxy::login::serverbound::EncryptionResponse;
use mc_proxy::motd::{favicon, is_expired, motd, pick_motd, EXPIRATION_SECONDS, FAVICON_PREFIX};
use rsa::pkcs8::DecodePublicKey;

fn document(text: &str) -> serde_json::Value {
    serde_json::from_str(text).unwrap()
}

#[test]
fn motd_joins_the_picked_lines() {
    let doc = document("{\"line1\":[\"a\",\"b\"],\"line2\":[\"x\",\"y\",\"z\"]}");
    assert_eq!(pick_motd(&doc, 0, 0), "a\nx");
    assert_eq!(pick_motd(&doc, 1, 2), "b\nz");
    assert_eq!(pick_motd(&doc, 2, 0), "A Minecraft Server Proxy");
    assert_eq!(pick_motd(&doc, 0, 3), info_messages::DEFAULT_MOTD);
}

#[test]
fn motd_defaults() {
    for text in [
        "null",
        "{}",
        "[]",
        "{\"line1\":[],\"line2\":[\"x\"]}",
        "{\"line1\":[\"a\"]}",
        "{\"line1\":\"a\",\"line2\":[\"x\"]}",
        "{\"line1\":[1],\"line2\":[\"x\"]}",
        "{\"line1\":[\"a\"],\"line2\":[null]}",
    ] {
        let doc = document(text);
        assert_eq!(motd(&doc), "A Minecraft Server Proxy");
        assert_eq!(pick_motd(&doc, 0, 0), "A Minecraft Server Proxy");
    }
}

#[test]
fn motd_picks_from_the_lists() {
    let doc = document("{\"line1\":[\"a\",\"b\"],\"line2\":[\"x\",\"y\"]}");
    let all = ["a\nx", "a\ny", "b\nx", "b\ny"];
    for _ in 0..50 {
        let text = motd(&doc);
        assert!(all.contains(&text.as_str()));
    }
    let doc = document("{\"line1\":[\"only\"],\"line2\":[\"one\"]}");
    assert_eq!(motd(&doc), "only\none");
}

#[test]
fn motd_expires_after_an_hour() {
    assert_eq!(EXPIRATION_SECONDS, 3600);
    assert!(is_expired(None, 0));
    assert!(!is_expired(Some(10), 10));
    assert!(!is_expired(Some(10), 3609));
    assert!(is_expired(Some(10), 3610));
    assert!(!is_expired(Some(10), 5));
}

#[test]
fn favicon_is_a_data_uri() {
    assert_eq!(FAVICON_PREFIX, "data:image/png;base64,");
    assert_eq!(favicon(None), None);
    assert_eq!(favicon(Some(vec![1, 2, 3])), Some("data:image/png;base64,AQID".to_string()));
    assert_eq!(favicon(Some(vec![0xFF])), Some("data:image/png;base64,/w".to_string()));
    assert_eq!(favicon(Some(vec![])), Some("data:image/png;base64,".to_string()));
    assert_eq!(
        favicon(Some(b"hello".to_vec())),
        Some("data:image/png;base64,aGVsbG8".to_string())
    );
}

#[test]
fn verify_token_has_four_bytes() {
    assert_eq!(VERIFY_TOKEN_LENGTH, 4);
    for _ in 0..10 {
        assert_eq!(generate_verify_token().len(), 4);
    }
    let distinct = (0..20).map(|_| generate_verify_token()).collect::<std::collections::HashSet<_>>();
    assert!(distinct.len() > 1);
}

#[test]
fn byte_strings_compare() {
    assert!(same_bytes(&vec![], &vec![]));
    assert!(same_bytes(&vec![1, 2], &vec![1, 2]));
    assert!(!same_bytes(&vec![1, 2], &vec![1, 3]));
    assert!(!same_bytes(&vec![1, 2], &vec![1]));
    assert!(!same_bytes(&vec![2, 2], &vec![1, 2]));
}

#[test]
fn encryption_response_is_checked_against_the_token() {
    let issued = vec![1, 2, 3, 4];
    assert_eq!(
        check_encryption_response(&issued, Some(vec![9; 16]), Some(vec![1, 2, 3, 4])),
        Ok(vec![9; 16])
    );
    assert_eq!(
        check_encryption_response(&issued, Some(vec![9; 16]), Some(vec![1, 2, 3, 5])),
        Err(EncryptionError::EncryptionMismatch)
    );
    assert_eq!(
        check_encryption_response(&issued, Some(vec![9; 16]), Some(vec![1, 2, 3])),
        Err(EncryptionError::EncryptionMismatch)
    );
    assert_eq!(
        check_encryption_response(&issued, None, Some(vec![1, 2, 3, 4])),
        Err(EncryptionError::DecryptionFailed)
    );
    assert_eq!(
        check_encryption_response(&issued, Some(vec![9; 16]), None),
        Err(EncryptionError::DecryptionFailed)
    );
    assert_eq!(
        check_encryption_response(&issued, None, None),
        Err(EncryptionError::DecryptionFailed)
    );
}

#[test]
fn encryption_handshake_with_a_real_key() {
    let mut rng = rand::thread_rng();
    let private_key = rsa::RsaPrivateKey::new(&mut rng, 512).unwrap();
    let request = create_encryption_request(&private_key).unwrap();
    assert_eq!(request.server_id, "");
    assert_eq!(request.verify_token.len(), 4);
    let public_key = rsa::RsaPublicKey::from_public_key_der(&request.public_key).unwrap();
    assert!(public_key == private_key.to_public_key());

    let secret: Vec<u8> = (0..16).collect();
    let response = EncryptionResponse {
        shared_secret: public_key.encrypt(&mut rng, rsa::Pkcs1v15Encrypt, &secret).unwrap(),
        verify_token: public_key
            .encrypt(&mut rng, rsa::Pkcs1v15Encrypt, &request.verify_token)
            .unwrap(),
    };
    assert!(response.shared_secret != secret);
    assert_eq!(
        handle_encryption_response(&private_key, &request.verify_token, &response),
        Ok(secret.clone())
    );
    assert_eq!(
        handle_encryption_response(&private_key, &vec![0, 0, 0, 0, 0], &response),
        Err(EncryptionError::EncryptionMismatch)
    );
    let garbage = EncryptionResponse { shared_secret: vec![1, 2, 3], verify_token: vec![4] };
    assert_eq!(
        handle_encryption_response(&private_key, &request.verify_token, &garbage),
        Err(EncryptionError::DecryptionFailed)
    );
}

#[test]
fn encryption_request_carries_key_and_token() {
    let request = encryption_request(vec![1, 2, 3], vec![4, 5, 6, 7]);
    assert_eq!(request.server_id, "");
    assert_eq!(request.public_key, vec![1, 2, 3]);
    assert_eq!(request.verify_token, vec![4, 5, 6, 7]);
}
