use argon2::password_hash::SaltString;
use quietdrop::authentication::{self, CredentialError};
use rand::rngs::OsRng;

#[test]
fn test_password_hashing_and_verification() {
    let password = "secure_password_123";

    let (hashed_password, salt) =
        authentication::hash_password(password).expect("Password hashing should succeed");

    assert_ne!(
        hashed_password, password,
        "Hashed password should differ from original"
    );

    let verification_result = authentication::verify_password(&hashed_password, &salt, password)
        .expect("Verification function should not error");
    assert!(
        verification_result,
        "Password verification should succeed with correct password"
    );

    let wrong_password = "wrong_password_123";
    let incorrect_verification =
        authentication::verify_password(&hashed_password, &salt, wrong_password)
            .expect("Verification function should not error even with wrong password");
    assert!(
        !incorrect_verification,
        "Password verification should fail with incorrect password"
    );
}

#[test]
fn test_salt_generation_uniqueness() {
    let mut salts = Vec::new();

    for _ in 0..10 {
        let salt = SaltString::generate(&mut OsRng);
        let salt_str = salt.as_str().to_string();
        assert!(!salts.contains(&salt_str), "Salts should be unique");
        salts.push(salt_str);
    }
}

#[test]
fn same_password_and_salt_hash_identically() {
    let password = "consistent_password_test";
    let salt_string = "abcdefghijklmnopqrstuA";

    let hash1 = authentication::hash_password_with_salt(password, salt_string)
        .expect("Hashing should succeed");
    let hash2 = authentication::hash_password_with_salt(password, salt_string)
        .expect("Hashing should succeed");

    assert_eq!(
        hash1, hash2,
        "Same password and salt should produce identical hashes"
    );
}

#[test]
fn hash_string_describes_algorithm_costs_and_salt() {
    let hash = authentication::hash_password_with_salt("pw", "abcdefghijklmnopqrstuA")
        .expect("Hashing should succeed");
    assert!(hash.starts_with("$argon2id$v=19$m=4096,t=3,p=1$abcdefghijklmnopqrstuA$"));
}

#[test]
fn repeated_hashing_with_fresh_salts_gives_distinct_hashes() {
    let mut hashes = Vec::new();
    for _ in 0..4 {
        let (hash, salt) = authentication::hash_password("same password").expect("hashing");
        assert!(hash.contains(&salt));
        assert!(!hashes.contains(&hash));
        hashes.push(hash);
    }
}

#[test]
fn invalid_salt_is_a_configuration_error() {
    assert_eq!(
        authentication::hash_password_with_salt("pw", "ab"),
        Err(CredentialError::ConfigurationError)
    );
    assert_eq!(
        authentication::hash_password_with_salt("pw", "abcdefghijklmnopqrstuvwxyz"),
        Err(CredentialError::ConfigurationError)
    );
}

#[test]
fn wrong_password_against_own_hash_is_false_not_error() {
    let (hash, salt) = authentication::hash_password("right").expect("hashing");
    assert_eq!(authentication::verify_password(&hash, &salt, "wrong"), Ok(false));
    assert_eq!(authentication::verify_password(&hash, &salt, ""), Ok(false));
    assert_eq!(authentication::verify_password(&hash, &salt, "right"), Ok(true));
}

#[test]
fn hash_never_equals_password_and_embeds_salt() {
    let (hash, salt) = authentication::hash_password("plain").expect("hashing");
    assert_ne!(hash, "plain");
    assert!(hash.starts_with(&format!("$argon2id$v=19$m=4096,t=3,p=1${}$", salt)));
}

#[test]
fn malformed_hash_is_reported_not_false() {
    assert_eq!(
        authentication::verify_password("not a phc string", "", "pw"),
        Err(CredentialError::MalformedHash)
    );
}
