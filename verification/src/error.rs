//! The library's error type.
use crate::primitives::{io_error_text, json_error_text};
use vstd::prelude::*;
use vstd::string::*;

verus! {

/// Everything that can go wrong while a file is encrypted or decrypted.
#[derive(Debug)]
pub enum CryptoError {
    /// The data could not be encrypted.
    EncryptionFailed(String),
    /// The payload could not be decrypted.
    DecryptionFailed(String),
    /// No key could be derived from the password.
    KeyDerivationFailed(String),
    /// The ciphertext does not carry the signature of the derived key.
    SignatureVerificationFailed,
    /// The password is not acceptable.
    InvalidPassword,
    /// Too many attempts were made; access is locked for a while.
    MaxAttemptsExceeded,
    /// A file could not be read or written.
    IoError(std::io::Error),
    /// A value could not be turned into JSON.
    SerializationError(serde_json::Error),
}

/// A `CryptoError` with its texts taken as sequences of characters.
pub enum ErrorView {
    EncryptionFailed(Seq<char>),
    DecryptionFailed(Seq<char>),
    KeyDerivationFailed(Seq<char>),
    SignatureVerificationFailed,
    InvalidPassword,
    MaxAttemptsExceeded,
    IoError(std::io::Error),
    SerializationError(serde_json::Error),
}

impl View for CryptoError {
    type V = ErrorView;

    open spec fn view(&self) -> ErrorView {
        match *self {
            CryptoError::EncryptionFailed(e) => ErrorView::EncryptionFailed(e@),
            CryptoError::DecryptionFailed(e) => ErrorView::DecryptionFailed(e@),
            CryptoError::KeyDerivationFailed(e) => ErrorView::KeyDerivationFailed(e@),
            CryptoError::SignatureVerificationFailed => ErrorView::SignatureVerificationFailed,
            CryptoError::InvalidPassword => ErrorView::InvalidPassword,
            CryptoError::MaxAttemptsExceeded => ErrorView::MaxAttemptsExceeded,
            CryptoError::IoError(e) => ErrorView::IoError(e),
            CryptoError::SerializationError(e) => ErrorView::SerializationError(e),
        }
    }
}

impl From<std::io::Error> for CryptoError {
    fn from(e: std::io::Error) -> (error: CryptoError) {
        CryptoError::IoError(e)
    }
}

impl vstd::std_specs::convert::FromSpecImpl<std::io::Error> for CryptoError {
    open spec fn obeys_from_spec() -> bool {
        true
    }

    open spec fn from_spec(e: std::io::Error) -> CryptoError {
        CryptoError::IoError(e)
    }
}

impl From<serde_json::Error> for CryptoError {
    fn from(e: serde_json::Error) -> (error: CryptoError) {
        CryptoError::SerializationError(e)
    }
}

impl vstd::std_specs::convert::FromSpecImpl<serde_json::Error> for CryptoError {
    open spec fn obeys_from_spec() -> bool {
        true
    }

    open spec fn from_spec(e: serde_json::Error) -> CryptoError {
        CryptoError::SerializationError(e)
    }
}

/// What is shown of an error. `detail` is the text of the outside error that an
/// `IoError` or a `SerializationError` carries; the other errors do not use it.
pub open spec fn error_message(error: ErrorView, detail: Seq<char>) -> Seq<char> {
    match error {
        ErrorView::EncryptionFailed(e) => "Encryption failed: "@ + e,
        ErrorView::DecryptionFailed(e) => "Decryption failed: "@ + e,
        ErrorView::KeyDerivationFailed(e) => "Key derivation failed: "@ + e,
        ErrorView::SignatureVerificationFailed => "Signature verification failed"@,
        ErrorView::InvalidPassword => "Invalid password"@,
        ErrorView::MaxAttemptsExceeded => "Max attempts exceeded"@,
        ErrorView::IoError(_) => "IO error: "@ + detail,
        ErrorView::SerializationError(_) => "Serialization error: "@ + detail,
    }
}

impl CryptoError {
    /// The text that is shown for this error, given the text of the outside error that
    /// it carries.
    pub fn message_with(&self, detail: &str) -> (message: String)
        ensures
            message@ == error_message(self@, detail@),
    {
        match self {
            CryptoError::EncryptionFailed(e) => "Encryption failed: ".to_owned().concat(e.as_str()),
            CryptoError::DecryptionFailed(e) => "Decryption failed: ".to_owned().concat(e.as_str()),
            CryptoError::KeyDerivationFailed(e) => "Key derivation failed: ".to_owned().concat(
                e.as_str(),
            ),
            CryptoError::SignatureVerificationFailed => "Signature verification failed".to_owned(),
            CryptoError::InvalidPassword => "Invalid password".to_owned(),
            CryptoError::MaxAttemptsExceeded => "Max attempts exceeded".to_owned(),
            CryptoError::IoError(_) => "IO error: ".to_owned().concat(detail),
            CryptoError::SerializationError(_) => "Serialization error: ".to_owned().concat(detail),
        }
    }

    /// The text that is shown for this error. The part of an `IoError` or of a
    /// `SerializationError` that its own crate words is not fixed here.
    pub fn message(&self) -> (message: String)
        ensures
            exists|detail: Seq<char>| message@ == error_message(self@, detail),
    {
        let detail: String = match self {
            CryptoError::IoError(e) => io_error_text(e),
            CryptoError::SerializationError(e) => json_error_text(e),
            _ => String::new(),
        };
        self.message_with(detail.as_str())
    }
}

} // verus!
