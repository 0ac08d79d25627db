use sodiumoxide::crypto::box_;
use quietdrop::encryption::{decrypt_message, encrypt_message, generate_keypair, DecryptError, PublicKey};

#[test]
fn test_end_to_end_encryption() {
    let (alice_public_key, alice_secret_key) = generate_keypair();
    let (bob_public_key, bob_secret_key) = generate_keypair();

    let original_message = "Hello Bob, this is a secure message from Alice!";

    let encrypted_message = encrypt_message(original_message, &bob_public_key, &alice_secret_key);

    assert_ne!(
        encrypted_message,
        original_message.as_bytes().to_vec(),
        "Encrypted message should be different from original"
    );

    let decrypted_message = decrypt_message(&encrypted_message, &alice_public_key, &bob_secret_key)
        .expect("Decryption should succeed");

    assert_eq!(
        original_message, decrypted_message,
        "Decrypted message should match the original"
    );

    let (_eve_public_key, eve_secret_key) = generate_keypair();
    let eve_decryption_result =
        decrypt_message(&encrypted_message, &alice_public_key, &eve_secret_key);

    assert!(
        eve_decryption_result.is_err(),
        "Eve should not be able to decrypt the message"
    );
}

#[test]
fn truncated_ciphertext_is_malformed() {
    let (alice_public_key, _) = generate_keypair();
    let (_, bob_secret_key) = generate_keypair();
    let short = vec![7u8; 23];
    assert_eq!(
        decrypt_message(&short, &alice_public_key, &bob_secret_key),
        Err(DecryptError::MalformedInput)
    );
}

#[test]
fn test_message_tampering_detection() {
    let (alice_public_key, alice_secret_key) = generate_keypair();
    let (bob_public_key, bob_secret_key) = generate_keypair();

    let original_message = "This message integrity must be protected";

    let mut encrypted_message =
        encrypt_message(original_message, &bob_public_key, &alice_secret_key);

    if let Some(last) = encrypted_message.last_mut() {
        *last ^= 0x01;
    }

    let decryption_result = decrypt_message(&encrypted_message, &alice_public_key, &bob_secret_key);

    assert!(
        decryption_result.is_err(),
        "Tampered message should fail authentication"
    );
}

#[test]
fn test_key_specificity() {
    let (alice_public_key, alice_secret_key) = generate_keypair();
    let (bob_public_key, bob_secret_key) = generate_keypair();
    let (charlie_public_key, charlie_secret_key) = generate_keypair();

    let message_for_bob = "Hey Bob, this is for your eyes only";
    let encrypted_for_bob = encrypt_message(message_for_bob, &bob_public_key, &alice_secret_key);

    let message_for_charlie = "Hey Charlie, here's the info you requested";
    let encrypted_for_charlie =
        encrypt_message(message_for_charlie, &charlie_public_key, &alice_secret_key);

    let bob_decryption = decrypt_message(&encrypted_for_bob, &alice_public_key, &bob_secret_key)
        .expect("Bob should be able to decrypt his message");
    assert_eq!(message_for_bob, bob_decryption);

    let charlie_decryption = decrypt_message(
        &encrypted_for_charlie,
        &alice_public_key,
        &charlie_secret_key,
    )
    .expect("Charlie should be able to decrypt his message");
    assert_eq!(message_for_charlie, charlie_decryption);

    let bob_decrypting_charlies_message =
        decrypt_message(&encrypted_for_charlie, &alice_public_key, &bob_secret_key);
    assert!(bob_decrypting_charlies_message.is_err());

    let charlie_decrypting_bobs_message =
        decrypt_message(&encrypted_for_bob, &alice_public_key, &charlie_secret_key);
    assert!(charlie_decrypting_bobs_message.is_err());
}

#[test]
fn every_single_bit_flip_is_detected() {
    let (alice_public_key, alice_secret_key) = generate_keypair();
    let (bob_public_key, bob_secret_key) = generate_keypair();
    let package = encrypt_message("flip me", &bob_public_key, &alice_secret_key);
    for byte in 0..package.len() {
        for bit in 0..8 {
            let mut tampered = package.clone();
            tampered[byte] ^= 1u8 << bit;
            assert_eq!(
                decrypt_message(&tampered, &alice_public_key, &bob_secret_key),
                Err(DecryptError::AuthenticationFailure)
            );
        }
    }
}

#[test]
fn package_layout_is_nonce_then_box() {
    let (_, alice_secret_key) = generate_keypair();
    let (bob_public_key, _) = generate_keypair();
    let package = encrypt_message("Hello Bob!", &bob_public_key, &alice_secret_key);
    assert_eq!(package.len(), 24 + 16 + 10);
    let empty = encrypt_message("", &bob_public_key, &alice_secret_key);
    assert_eq!(empty.len(), 40);
}

#[test]
fn same_plaintext_twice_gives_different_packages() {
    let (_, alice_secret_key) = generate_keypair();
    let (bob_public_key, _) = generate_keypair();
    let first = encrypt_message("same text", &bob_public_key, &alice_secret_key);
    let second = encrypt_message("same text", &bob_public_key, &alice_secret_key);
    assert_ne!(first, second);
    assert_ne!(first[..24], second[..24]);
}

#[test]
fn round_trip_of_empty_and_multibyte_text() {
    let (alice_public_key, alice_secret_key) = generate_keypair();
    let (bob_public_key, bob_secret_key) = generate_keypair();
    for text in ["", "Hello Bob!", "héllo wörld ✓ 🚀"] {
        let package = encrypt_message(text, &bob_public_key, &alice_secret_key);
        assert_eq!(
            decrypt_message(&package, &alice_public_key, &bob_secret_key),
            Ok(text.to_string())
        );
    }
}

#[test]
fn exactly_a_nonce_is_not_malformed_but_rejected() {
    let (alice_public_key, _) = generate_keypair();
    let (_, bob_secret_key) = generate_keypair();
    assert_eq!(
        decrypt_message(&[0u8; 24], &alice_public_key, &bob_secret_key),
        Err(DecryptError::AuthenticationFailure)
    );
    assert_eq!(
        decrypt_message(&[], &alice_public_key, &bob_secret_key),
        Err(DecryptError::MalformedInput)
    );
}

#[test]
fn box_of_invalid_utf8_is_an_encoding_error() {
    let (alice_public_key, alice_secret_key) = generate_keypair();
    let (bob_public_key, bob_secret_key) = generate_keypair();
    let nonce = box_::gen_nonce();
    let sealed = box_::seal(
        &[0xff, 0xfe, 0x41],
        &nonce,
        &box_::PublicKey(bob_public_key.bytes),
        &box_::SecretKey(alice_secret_key.bytes),
    );
    let package = [nonce.0.to_vec(), sealed].concat();
    assert_eq!(
        decrypt_message(&package, &alice_public_key, &bob_secret_key),
        Err(DecryptError::EncodingError)
    );
}

#[test]
fn generated_public_key_belongs_to_its_secret_key() {
    let (public_key, secret_key) = generate_keypair();
    assert_eq!(
        box_::SecretKey(secret_key.bytes).public_key().0,
        public_key.bytes
    );
}

#[test]
fn public_key_from_slice_needs_exactly_32_bytes() {
    let bytes: Vec<u8> = (0u8..32).collect();
    let key = PublicKey::from_slice(&bytes).expect("32 bytes");
    assert_eq!(key.bytes.to_vec(), bytes);
    assert!(PublicKey::from_slice(&bytes[..31]).is_none());
    assert!(PublicKey::from_slice(&[0u8; 33]).is_none());
}
