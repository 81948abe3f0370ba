use secure_encryptor::crypto::{
    decrypt_data, derive_key, encrypt_data, encrypt_with, is_sealable, open_parts, open_payload,
    seal, sign_data, try_decrypt_data, verify_signature, EncryptedPayload, Salt,
};
use secure_encryptor::error::CryptoError;

const PASSWORD: &str = "correct_horse";
const SALT: &str = "c29tZXNhbHRzb21lc2FsdA";
const KEY: [u8; 32] = [
    139, 58, 140, 68, 16, 244, 62, 45, 54, 228, 163, 51, 114, 96, 108, 163, 60, 32, 64, 186, 233,
    213, 158, 46, 151, 13, 185, 0, 73, 87, 79, 193,
];

fn sample() -> EncryptedPayload {
    EncryptedPayload {
        nonce: "AAECAwQFBgcICQoL".to_string(),
        ciphertext: "jDDWp12LiekIi03MQ6fQO14Th5lWMY6Y2MHy6DXZ".to_string(),
        salt: SALT.to_string(),
        signature: "pK4Oon/83WhaKzpMPqK+xONvupwkQisQULtALAkW7yQ=".to_string(),
        original_filename: "plan.txt".to_string(),
    }
}

#[test]
fn key_derivation_gives_the_argon2id_value() {
    let salt = Salt::from_b64(SALT).unwrap();
    assert_eq!(salt.as_str(), SALT);
    assert_eq!(derive_key(PASSWORD, &salt).unwrap(), KEY);
}

#[test]
fn short_salt_gives_no_key() {
    let salt = Salt::from_b64("abcd").unwrap();
    match derive_key(PASSWORD, &salt) {
        Err(CryptoError::KeyDerivationFailed(e)) => assert_eq!(e, "salt invalid: value to short"),
        _ => panic!("a three-byte salt was accepted"),
    }
}

#[test]
fn salt_outside_the_base64_alphabet_gives_no_key() {
    // A character outside the alphabet, an impossible length, and bits behind the last byte.
    for text in ["some.salt-text", "abcdabcdabcda", "c29tZXNhbHRzb21lc2FsdB", "AAAAAAAAAAB"] {
        let salt = Salt::from_b64(text).unwrap();
        match derive_key(PASSWORD, &salt) {
            Err(CryptoError::KeyDerivationFailed(e)) => assert_eq!(e, "invalid Base64 encoding"),
            _ => panic!("a salt that is no base64 text was accepted"),
        }
    }
}

#[test]
fn salt_of_eight_bytes_is_the_shortest() {
    let seven = Salt::from_b64("AAAAAAAAAA").unwrap();
    match derive_key(PASSWORD, &seven) {
        Err(CryptoError::KeyDerivationFailed(e)) => assert_eq!(e, "salt invalid: value to short"),
        _ => panic!("a salt of seven bytes was accepted"),
    }
    assert!(derive_key(PASSWORD, &Salt::from_b64("AAAAAAAAAAA").unwrap()).is_ok());
    assert!(derive_key(PASSWORD, &Salt::from_b64("AAAAAAAAAAE").unwrap()).is_ok());
}

#[test]
fn payload_parts_have_their_lengths() {
    for len in [0usize, 1, 2, 100] {
        let payload = encrypt_data(&vec![7u8; len], PASSWORD).unwrap();
        assert_eq!(payload.nonce.len(), 16);
        assert_eq!(payload.ciphertext.len(), (len + 16 + 2) / 3 * 4);
        assert_eq!(payload.signature.len(), 44);
        assert_eq!(payload.salt.len(), 22);
        assert_eq!(payload.original_filename, "");
    }
}

#[test]
fn payload_is_refused_under_every_nearby_nonce() {
    let mut payload = sample();
    for nonce in ["AAECAwQFBgcICQoK", "AQECAwQFBgcICQoL", "////////////////"] {
        payload.nonce = nonce.to_string();
        let mut key = KEY;
        match open_payload(&payload, &mut key) {
            Err(CryptoError::DecryptionFailed(e)) => assert_eq!(e, "aead::Error"),
            _ => panic!("another nonce was accepted"),
        }
    }
}

#[test]
fn decoded_parts_are_opened() {
    let sealed_zeros = [
        0xce, 0xa7, 0x40, 0x3d, 0x4d, 0x60, 0x6b, 0x6e, 0x07, 0x4e, 0xc5, 0xd3, 0xba, 0xf3, 0x9d,
        0x18, 0xd0, 0xd1, 0xc8, 0xa7, 0x99, 0x99, 0x6b, 0xf0, 0x26, 0x5b, 0x98, 0xb5, 0xd4, 0x8a,
        0xb9, 0x19,
    ];
    let code = [
        0xbd, 0xc1, 0x34, 0xea, 0x45, 0x9a, 0xf0, 0x45, 0x3b, 0xfc, 0x23, 0x15, 0x3e, 0xf3, 0x93,
        0x23, 0x32, 0x12, 0x0f, 0xb3, 0x1c, 0x58, 0x4a, 0xeb, 0x5e, 0x6a, 0x7d, 0xa1, 0x94, 0x71,
        0x67, 0xde,
    ];
    assert_eq!(open_parts(&sealed_zeros, &code, &[0; 12], &mut [0; 32]).unwrap(), [0u8; 16]);
    assert!(matches!(
        open_parts(&sealed_zeros, &code, &[1; 12], &mut [0; 32]),
        Err(CryptoError::DecryptionFailed(_))
    ));
    let mut key = [5; 32];
    assert!(matches!(
        open_parts(&sealed_zeros, &code, &[0; 3], &mut key),
        Err(CryptoError::SignatureVerificationFailed)
    ));
    assert_eq!(key, [0; 32]);
}

#[test]
fn wrong_signature_is_told_before_a_damaged_nonce() {
    let mut payload = sample();
    payload.nonce = "****".to_string();
    let mut key = [9; 32];
    assert!(matches!(
        open_payload(&payload, &mut key),
        Err(CryptoError::SignatureVerificationFailed)
    ));
    assert_eq!(key, [0; 32]);
}

#[test]
fn only_canonical_base64_is_decoded() {
    let key = [0x0b; 20];
    for text in ["AA==", "AAA=", "AAAA", "", "/+8="] {
        assert!(!verify_signature(b"Hi There", text, &key).unwrap());
    }
    for text in ["AB==", "AAB=", "AA", "AAA", "AA=", "AA==AAAA", "AAAA=", "====", "A-==", "AA= ="] {
        assert!(matches!(
            verify_signature(b"Hi There", text, &key),
            Err(CryptoError::DecryptionFailed(_))
        ));
    }
}

#[test]
fn only_codes_of_full_length_pass() {
    let key = [0x0b; 20];
    let full = "sDRMYdjbOFNcqK/OrwvxK4gdwgDJgz2nJuk3bC4yz/c=";
    assert!(verify_signature(b"Hi There", full, &key).unwrap());
    assert!(!verify_signature(b"Hi There", "", &key).unwrap());
    assert!(!verify_signature(b"Hi There", &full[..40], &key).unwrap());
    assert!(!verify_signature(b"Hi There", &full.replace("=", "A"), &key).unwrap());
}

#[test]
fn salt_texts_are_checked() {
    assert_eq!(Salt::from_b64("abc").err().unwrap(), "salt invalid: value to short");
    assert_eq!(Salt::from_b64(&"a".repeat(65)).err().unwrap(), "salt invalid: value to long");
    assert_eq!(
        Salt::from_b64("ab_d!f").err().unwrap(),
        "salt invalid: contains invalid character: '_'"
    );
    assert_eq!(
        Salt::from_b64("saltéé").err().unwrap(),
        "salt invalid: contains invalid character: 'é'"
    );
    assert_eq!(Salt::from_b64(&"a".repeat(64)).unwrap().as_str(), "a".repeat(64));
}

#[test]
fn generated_salts_are_valid_and_differ() {
    let a = Salt::generate();
    let b = Salt::generate();
    assert_eq!(a.as_str().len(), 22);
    assert!(a.as_str().chars().all(|c| c.is_ascii_alphanumeric() || c == '+' || c == '/'));
    assert!(Salt::from_b64(a.as_str()).is_ok());
    assert_ne!(a.as_str(), b.as_str());
}

#[test]
fn encryption_with_fixed_salt_and_nonce_is_exact() {
    let salt = Salt::from_b64(SALT).unwrap();
    let nonce = [0, 1, 2, 3, 4, 5, 6, 7, 8, 9, 10, 11];
    let payload = encrypt_with(b"attack at dawn", PASSWORD, &salt, &nonce).unwrap();
    let expected = sample();
    assert_eq!(payload.nonce, expected.nonce);
    assert_eq!(payload.ciphertext, expected.ciphertext);
    assert_eq!(payload.salt, expected.salt);
    assert_eq!(payload.signature, expected.signature);
    assert_eq!(payload.original_filename, "");
}

#[test]
fn sealing_matches_the_gcm_test_vector_and_wipes_the_key() {
    let salt = Salt::from_b64("abcd").unwrap();
    let mut key = [0u8; 32];
    let payload = seal(&[0u8; 16], &mut key, &salt, &[0u8; 12]).unwrap();
    assert_eq!(payload.nonce, "AAAAAAAAAAAAAAAA");
    assert_eq!(payload.ciphertext, "zqdAPU1ga24HTsXTuvOdGNDRyKeZmWvwJluYtdSKuRk=");
    assert_eq!(payload.signature, "vcE06kWa8EU7/CMVPvOTIzISD7McWErrXmp9oZRxZ94=");
    assert_eq!(payload.salt, "abcd");

    let mut key = KEY;
    assert!(seal(b"x", &mut key, &salt, &[7u8; 12]).is_ok());
    assert_eq!(key, [0u8; 32]);
}

#[test]
fn opening_wipes_the_key_on_success_and_on_a_wrong_signature() {
    let mut key = KEY;
    assert_eq!(open_payload(&sample(), &mut key).unwrap(), b"attack at dawn");
    assert_eq!(key, [0u8; 32]);

    let mut key = [9u8; 32];
    assert!(matches!(
        open_payload(&sample(), &mut key),
        Err(CryptoError::SignatureVerificationFailed)
    ));
    assert_eq!(key, [0u8; 32]);

    let mut key = KEY;
    let mut payload = sample();
    payload.ciphertext = "*".to_string();
    assert!(matches!(open_payload(&payload, &mut key), Err(CryptoError::DecryptionFailed(_))));
    assert_eq!(key, KEY);
}

#[test]
fn decryption_gives_the_contents_back() {
    assert_eq!(decrypt_data(&sample(), PASSWORD).unwrap(), b"attack at dawn");
}

#[test]
fn random_encryption_is_undone_by_decryption() {
    let data: Vec<u8> = (0..1000u32).map(|i| (i * 7) as u8).collect();
    let payload = encrypt_data(&data, "密码密码密码").unwrap();
    assert_eq!(try_decrypt_data(&payload, "密码密码密码").unwrap().unwrap(), data);
}

#[test]
fn empty_contents_are_encrypted_too() {
    let payload = encrypt_data(b"", PASSWORD).unwrap();
    assert_eq!(try_decrypt_data(&payload, PASSWORD).unwrap().unwrap(), b"");
}

#[test]
fn wrong_password_is_refused() {
    assert!(matches!(
        try_decrypt_data(&sample(), "wrong password"),
        Some(Err(CryptoError::SignatureVerificationFailed))
    ));
}

#[test]
fn changed_ciphertext_is_refused() {
    let mut payload = sample();
    payload.ciphertext = "jDDWp12LiekIi03MQ6fQO14Th5lWMY6Y2MHy6DXa".to_string();
    assert!(matches!(
        try_decrypt_data(&payload, PASSWORD),
        Some(Err(CryptoError::SignatureVerificationFailed))
    ));
}

#[test]
fn changed_nonce_is_refused_by_the_cipher() {
    let mut payload = sample();
    payload.nonce = "AAAAAAAAAAAAAAAA".to_string();
    match try_decrypt_data(&payload, PASSWORD) {
        Some(Err(CryptoError::DecryptionFailed(e))) => assert_eq!(e, "aead::Error"),
        _ => panic!("a changed nonce was accepted"),
    }
}

#[test]
fn changed_file_name_does_not_matter() {
    let mut payload = sample().clone();
    payload.original_filename = "other".to_string();
    assert_eq!(try_decrypt_data(&payload, PASSWORD).unwrap().unwrap(), b"attack at dawn");
}

#[test]
fn texts_that_are_no_base64_are_refused() {
    let mut payload = sample();
    payload.salt = "abc".to_string();
    match try_decrypt_data(&payload, PASSWORD) {
        Some(Err(CryptoError::DecryptionFailed(e))) => {
            assert_eq!(e, "salt invalid: value to short")
        }
        _ => panic!("a short salt was accepted"),
    }

    let mut payload = sample();
    payload.nonce = "****".to_string();
    match try_decrypt_data(&payload, PASSWORD) {
        Some(Err(CryptoError::DecryptionFailed(e))) => assert_eq!(e, "Invalid byte 42, offset 0."),
        _ => panic!("a damaged nonce was accepted"),
    }
}

#[test]
fn damaged_signature_text_is_refused() {
    let mut payload = sample();
    payload.signature = "A".to_string();
    match try_decrypt_data(&payload, PASSWORD) {
        Some(Err(CryptoError::DecryptionFailed(e))) => {
            assert_eq!(e, "Encoded text cannot have a 6-bit remainder.")
        }
        _ => panic!("a damaged signature was accepted"),
    }
}

#[test]
fn signed_payload_with_a_nonce_of_wrong_length_gives_nothing() {
    let mut payload = sample();
    payload.nonce = "AAAA".to_string();
    assert!(try_decrypt_data(&payload, PASSWORD).is_none());
}

#[test]
fn wrong_password_is_told_before_the_nonce_is_looked_at() {
    let mut payload = sample();
    payload.nonce = "AAAA".to_string();
    assert!(matches!(
        try_decrypt_data(&payload, "wrong password"),
        Some(Err(CryptoError::SignatureVerificationFailed))
    ));
}

#[test]
fn signature_is_the_hmac_test_vector() {
    let signature = sign_data(b"Hi There", &[0x0b; 20]).unwrap();
    assert_eq!(signature, "sDRMYdjbOFNcqK/OrwvxK4gdwgDJgz2nJuk3bC4yz/c=");
    assert!(verify_signature(b"Hi There", &signature, &[0x0b; 20]).unwrap());
    assert!(!verify_signature(b"Hi there", &signature, &[0x0b; 20]).unwrap());
    assert!(!verify_signature(b"Hi There", &signature, &[0x0c; 20]).unwrap());
    assert!(!verify_signature(b"Hi There", "sDRM", &[0x0b; 20]).unwrap());
    assert!(matches!(
        verify_signature(b"Hi There", "not base64!", &[0x0b; 20]),
        Err(CryptoError::DecryptionFailed(_))
    ));
}

#[test]
fn sealable_lengths_have_a_limit() {
    assert!(is_sealable(0));
    assert!(is_sealable(1 << 20));
    assert!(!is_sealable(usize::MAX));
    assert!(!is_sealable(isize::MAX as usize));
    assert!(is_sealable(isize::MAX as usize / 4 * 3 - 16));
}
