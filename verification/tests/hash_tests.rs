use learn_server::hash::{hash_password, hash_password_with_salt, verify_password, HASH_LEN, SALT_LEN};
use learn_server::users::{authenticate, User};

#[test]
fn hashed_password_verifies() {
    let stored = hash_password("hunter2");
    assert!(verify_password("hunter2", &stored));
}

#[test]
fn hashed_password_rejects_other_password() {
    let stored = hash_password("hunter2");
    assert!(!verify_password("hunter3", &stored));
    assert!(!verify_password("", &stored));
}

#[test]
fn hash_uses_fresh_salt() {
    let a = hash_password("same");
    let b = hash_password("same");
    assert_ne!(a, b);
    assert!(verify_password("same", &a));
    assert!(verify_password("same", &b));
}

#[test]
fn stored_hash_is_base64_of_48_bytes() {
    let stored = hash_password("pw");
    assert_eq!(SALT_LEN + HASH_LEN, 48);
    assert_eq!(stored.len(), 64);
}

#[test]
fn hash_with_known_salt_matches_pbkdf2_reference() {
    let salt: Vec<u8> = (0u8..16).collect();
    let stored = hash_password_with_salt("correct horse", &salt);
    assert_eq!(stored, "AAECAwQFBgcICQoLDA0OD1fywvBzl0jVFkGbBiqIRmYyPFg+pK4WVQSoH3tTxioJ");
    assert!(verify_password("correct horse", &stored));
}

#[test]
fn hash_of_non_ascii_password_matches_reference() {
    let salt = vec![0xffu8; 16];
    let stored = hash_password_with_salt("pässwörd", &salt);
    assert_eq!(stored, "/////////////////////+hsMwkeW+ZBF4ABmVNzq91zPz+yZ34JtxVbp+CBKZHI");
    assert!(verify_password("pässwörd", &stored));
    assert!(!verify_password("passwort", &stored));
}

#[test]
fn verify_rejects_text_that_is_not_base64() {
    assert!(!verify_password("pw", "not base64 at all!"));
    assert!(!verify_password("pw", ""));
}

#[test]
fn verify_rejects_base64_of_wrong_length() {
    // 47 bytes of zeros.
    let short = "AAAAAAAAAAAAAAAAAAAAAAAAAAAAAAAAAAAAAAAAAAAAAAAAAAAAAAAAAAAAAAA=";
    assert!(!verify_password("pw", short));
    // 3 bytes.
    assert!(!verify_password("pw", "AAAA"));
}

#[test]
fn verify_rejects_tampered_hash() {
    let salt: Vec<u8> = (0u8..16).collect();
    let mut stored = hash_password_with_salt("correct horse", &salt);
    stored.replace_range(30..31, if &stored[30..31] == "A" { "B" } else { "A" });
    assert!(!verify_password("correct horse", &stored));
}

#[test]
fn authenticate_accepts_matching_password() {
    let user = User { id: 7, username: "ann".to_string(), password_hash: hash_password("secret") };
    let result = authenticate(Some(user), "secret");
    let user = result.expect("accepted");
    assert_eq!(user.id, 7);
    assert_eq!(user.username, "ann");
}

#[test]
fn authenticate_rejects_wrong_password() {
    let user = User { id: 7, username: "ann".to_string(), password_hash: hash_password("secret") };
    assert!(authenticate(Some(user), "Secret").is_none());
}

#[test]
fn authenticate_rejects_unknown_user() {
    assert!(authenticate(None, "secret").is_none());
}

#[test]
fn stored_hash_is_sixty_four_base64_digits() {
    let stored = hash_password("anything");
    assert_eq!(stored.chars().count(), 64);
    for c in stored.chars() {
        assert!(learn_server::hash::BASE64_ALPHABET.contains(&c));
        assert!(c.is_ascii_alphanumeric() || c == '+' || c == '/');
    }
}

#[test]
fn check_decoded_reads_salt_then_key() {
    let salt: Vec<u8> = (0u8..16).collect();
    let stored = hash_password_with_salt("correct horse", &salt);
    // The stored text above decodes to these 48 bytes.
    let mut decoded = salt.clone();
    decoded.extend_from_slice(&[
        0x57, 0xf2, 0xc2, 0xf0, 0x73, 0x97, 0x48, 0xd5, 0x16, 0x41, 0x9b, 0x06, 0x2a, 0x88, 0x46, 0x66,
        0x32, 0x3c, 0x58, 0x3e, 0xa4, 0xae, 0x16, 0x55, 0x04, 0xa8, 0x1f, 0x7b, 0x53, 0xc6, 0x2a, 0x09,
    ]);
    assert!(verify_password("correct horse", &stored));
    assert!(learn_server::hash::check_decoded("correct horse", Some(decoded.clone())));
    assert!(!learn_server::hash::check_decoded("correct horsE", Some(decoded.clone())));
    decoded.pop();
    assert!(!learn_server::hash::check_decoded("correct horse", Some(decoded)));
    assert!(!learn_server::hash::check_decoded("correct horse", None));
}

#[test]
fn base64_alphabet_is_the_standard_one() {
    let expected: Vec<char> =
        "ABCDEFGHIJKLMNOPQRSTUVWXYZabcdefghijklmnopqrstuvwxyz0123456789+/".chars().collect();
    assert_eq!(learn_server::hash::BASE64_ALPHABET.to_vec(), expected);
}
