use secure_encryptor::container::{
    find_marker, frame_payload, is_encrypted_file, is_encrypted_image, payload_bytes,
    ENCRYPTED_MARKER,
};

#[test]
fn marker_is_the_expected_text() {
    assert_eq!(&ENCRYPTED_MARKER, b"SECURE_ENCRYPTED_FILE_V1");
}

#[test]
fn framed_payload_is_found_behind_a_program() {
    let mut image = b"\x7fELF program SECURE_ENCRYPTED_FILE_".to_vec();
    assert_eq!(find_marker(&image), None);
    let at = image.len();
    let framed = frame_payload("{\"a\":\"ä\"}");
    assert_eq!(framed, "SECURE_ENCRYPTED_FILE_V1{\"a\":\"ä\"}".as_bytes());
    image.extend(framed);
    assert_eq!(find_marker(&image), Some(at));
    assert!(is_encrypted_image(&image));
    assert_eq!(payload_bytes(&image).unwrap(), "{\"a\":\"ä\"}".as_bytes());
}

#[test]
fn payload_may_hold_the_marker_itself() {
    let mut image = b"program".to_vec();
    image.extend(frame_payload("x SECURE_ENCRYPTED_FILE_V1 y"));
    assert_eq!(payload_bytes(&image).unwrap(), b"x SECURE_ENCRYPTED_FILE_V1 y");
}

#[test]
fn first_marker_wins() {
    let mut image = b"code SECURE_ENCRYPTED_FILE_V1 data".to_vec();
    image.extend(frame_payload("{}"));
    assert_eq!(payload_bytes(&image).unwrap(), b" dataSECURE_ENCRYPTED_FILE_V1{}");
}

#[test]
fn short_or_foreign_data_holds_no_payload() {
    assert_eq!(payload_bytes(b""), None);
    assert_eq!(payload_bytes(b"SECURE_ENCRYPTED_FILE_V"), None);
    assert_eq!(payload_bytes(b"SECURE_ENCRYPTED_FILE_V2 and more"), None);
    assert_eq!(payload_bytes(b"SECURE_ENCRYPTED_FILE_V1"), Some(Vec::new()));
}

#[test]
fn unreadable_file_is_not_encrypted() {
    assert!(!is_encrypted_file(None));
    assert!(!is_encrypted_file(Some(b"plain")));
    assert!(is_encrypted_file(Some(b"..SECURE_ENCRYPTED_FILE_V1..")));
}
