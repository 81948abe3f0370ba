//! The course of encrypting one file, from the question for its path to the bytes that
//! are stored.
//!
//! The program asks, reads and writes; what it does next is decided here, step by step.
use crate::container;
use crate::crypto;
use crate::crypto::{EncryptedPayload, PayloadView};
use crate::error::{CryptoError, ErrorView};
use crate::names;
use crate::primitives;
use crate::text;
use vstd::prelude::*;
use vstd::string::*;
use vstd::utf8::*;

verus! {

/// The length of the shortest password that is taken, in bytes.
pub const MIN_PASSWORD_LEN: usize = 8;

/// The length of the longest password that is taken, in bytes.
pub const MAX_PASSWORD_LEN: usize = 32;

/// What is known while a file is being encrypted.
pub enum EncryptState {
    /// The path has been asked for.
    Path,
    /// It is being looked up whether there is a file at the path.
    Existence { path: String },
    /// The password has been asked for.
    Password { path: String },
    /// The password has been asked for once more.
    Confirmation { path: String, password: String },
    /// The file is being read.
    Contents { password: String },
    /// The payload is being turned into JSON.
    Serialization,
    /// The encrypted file is being stored.
    Storing,
    /// There is nothing left to do.
    Done,
}

/// What has happened outside.
pub enum EncryptEvent {
    /// The user typed this, already trimmed.
    Line(String),
    /// Whether there is a file at the path.
    Exists(bool),
    /// The contents of the file, and the last component of its path.
    Contents { data: Vec<u8>, file_name: Option<String> },
    /// The file could not be read.
    ReadFailed(std::io::Error),
    /// The payload as JSON.
    Json(String),
    /// The payload could not be turned into JSON.
    JsonFailed(serde_json::Error),
    /// The encrypted file was stored.
    Stored,
    /// The encrypted file could not be stored.
    StoreFailed(std::io::Error),
}

/// What is to be done outside.
pub enum EncryptAction {
    /// See whether there is a file at this path.
    CheckExists(String),
    /// Ask for the password.
    AskPassword,
    /// Ask for the password once more.
    AskConfirmation,
    /// Read the file at this path.
    ReadFile(String),
    /// Turn this payload into JSON.
    Serialize(EncryptedPayload),
    /// Store these bytes, behind a copy of the program where there is one.
    Store(Vec<u8>),
    /// End, and tell of the success.
    Report,
    /// End without a result, for the reason given.
    Stop(EncryptStop),
    /// End with an error.
    Fail(CryptoError),
    /// Nothing: the event does not belong to the state.
    Ignore,
}

/// Why nothing is encrypted.
pub enum EncryptStop {
    /// No path was given.
    Cancelled,
    /// There is no file at the path.
    FileMissing,
    /// The password has fewer bytes than it must have.
    PasswordTooShort,
    /// The password has more bytes than it may have.
    PasswordTooLong,
    /// The password was not repeated as it was.
    PasswordMismatch,
}

/// Whether a password has an acceptable length.
pub open spec fn acceptable_password(password: Seq<char>) -> bool {
    MIN_PASSWORD_LEN <= encode_utf8(password).len() <= MAX_PASSWORD_LEN
}

/// A result of encryption with the payload's file name set.
pub open spec fn named(payload: Result<PayloadView, ErrorView>, name: Seq<char>) -> Result<
    PayloadView,
    ErrorView,
> {
    match payload {
        Ok(payload) => Ok(crypto::renamed(payload, name)),
        Err(e) => Err(e),
    }
}

/// `payload` is a result of encrypting `data`, the contents of the file `name`, under
/// `password` with some salt and some nonce.
pub open spec fn sealed_file(
    data: Seq<u8>,
    password: Seq<char>,
    name: Seq<char>,
    payload: Result<PayloadView, ErrorView>,
) -> bool {
    &&& exists|salt: Seq<char>, nonce: Seq<u8>|
        crypto::fresh_salt(salt) && nonce.len() == 12 && payload == named(
            #[trigger] crypto::encrypted(data, password, salt, nonce),
            name,
        )
    &&& payload is Ok ==> crypto::decrypted(payload->Ok_0, password) == Some(
        Ok::<Seq<u8>, ErrorView>(data),
    )
    &&& payload is Ok <==> encode_utf8(password).len() <= primitives::argon2_limit() && data.len()
        <= primitives::aes_limit()
    &&& payload is Ok ==> crypto::fresh_salt(payload->Ok_0.salt)
    &&& payload is Ok ==> crypto::decodes_to(
        payload->Ok_0,
        crypto::derived_key(password, payload->Ok_0.salt)->Ok_0,
        data,
    )
    &&& payload is Ok ==> crypto::decrypted_under_own_nonce_only(payload->Ok_0, password)
}

/// Encrypts the contents of a file and remembers its name.
pub fn seal_file(data: &[u8], password: &str, file_name: Option<String>) -> (payload: Result<
    EncryptedPayload,
    CryptoError,
>)
    requires
        crypto::sealable(data@.len()),
    ensures
        sealed_file(
            data@,
            password@,
            names::remembered_name(names::optional(file_name)),
            crypto::result_view(payload),
        ),
        payload is Ok && file_name is Some ==> payload->Ok_0.original_filename@ == file_name->0@,
{
    let name = names::original_filename(file_name);
    match crypto::encrypt_data(data, password) {
        Ok(mut payload) => {
            let ghost plain = payload@;
            payload.original_filename = name;
            proof {
                crypto::law_file_name_is_not_part_of_decryption(plain, name@, password@);
                assert(payload@ =~= crypto::renamed(plain, name@));
                assert forall|nonce: Seq<char>|
                    crypto::another_nonce(payload@, nonce) implies crypto::decrypted(
                    #[trigger] crypto::with_nonce(payload@, nonce),
                    password@,
                ) == Some(
                    Err::<Seq<u8>, ErrorView>(ErrorView::DecryptionFailed("aead::Error"@)),
                ) by {
                    let moved = crypto::with_nonce(plain, nonce);
                    assert(crypto::another_nonce(plain, nonce));
                    crypto::law_file_name_is_not_part_of_decryption(moved, name@, password@);
                    assert(crypto::with_nonce(payload@, nonce) =~= crypto::renamed(moved, name@));
                }
            }
            Ok(payload)
        },
        Err(e) => Err(e),
    }
}

/// How one step of encrypting a file goes: from state `s`, on event `e`, to state `next`
/// with action `a`.
pub open spec fn encrypt_transition(
    s: EncryptState,
    e: EncryptEvent,
    next: EncryptState,
    a: EncryptAction,
) -> bool {
    match (s, e) {
        (EncryptState::Path, EncryptEvent::Line(line)) => if line@.len() == 0 {
            next is Done && a == EncryptAction::Stop(EncryptStop::Cancelled)
        } else {
            next == EncryptState::Existence { path: line } && match a {
                EncryptAction::CheckExists(path) => path@ == line@,
                _ => false,
            }
        },
        (EncryptState::Existence { path }, EncryptEvent::Exists(exists)) => if exists {
            next == EncryptState::Password { path } && a is AskPassword
        } else {
            next is Done && a == EncryptAction::Stop(EncryptStop::FileMissing)
        },
        (EncryptState::Password { path }, EncryptEvent::Line(line)) => if encode_utf8(line@).len()
            < MIN_PASSWORD_LEN {
            next is Done && a == EncryptAction::Stop(EncryptStop::PasswordTooShort)
        } else if encode_utf8(line@).len() > MAX_PASSWORD_LEN {
            next is Done && a == EncryptAction::Stop(EncryptStop::PasswordTooLong)
        } else {
            next == (EncryptState::Confirmation { path, password: line }) && a is AskConfirmation
        },
        (EncryptState::Confirmation { path, password }, EncryptEvent::Line(line)) => if line@
            == password@ {
            next == (EncryptState::Contents { password }) && a == EncryptAction::ReadFile(path)
        } else {
            next is Done && a == EncryptAction::Stop(EncryptStop::PasswordMismatch)
        },
        (
            EncryptState::Contents { password },
            EncryptEvent::Contents { data, file_name },
        ) => {
            let name = names::remembered_name(names::optional(file_name));
            match a {
                EncryptAction::Serialize(payload) => next is Serialization && sealed_file(
                    data@,
                    password@,
                    name,
                    Ok(payload@),
                ),
                EncryptAction::Fail(error) => next is Done && sealed_file(
                    data@,
                    password@,
                    name,
                    Err(error@),
                ),
                _ => false,
            }
        },
        (EncryptState::Contents { password }, EncryptEvent::ReadFailed(error)) => next is Done && a
            == EncryptAction::Fail(CryptoError::IoError(error)),
        (EncryptState::Serialization, EncryptEvent::Json(json)) => next is Storing && match a {
            EncryptAction::Store(bytes) => bytes@ == container::marker() + encode_utf8(json@),
            _ => false,
        },
        (EncryptState::Serialization, EncryptEvent::JsonFailed(error)) => next is Done && a
            == EncryptAction::Fail(CryptoError::SerializationError(error)),
        (EncryptState::Storing, EncryptEvent::Stored) => next is Done && a is Report,
        (EncryptState::Storing, EncryptEvent::StoreFailed(error)) => next is Done && a
            == EncryptAction::Fail(CryptoError::IoError(error)),
        _ => next == s && a is Ignore,
    }
}

/// Decides what is done next while a file is being encrypted.
pub fn encrypt_step(state: EncryptState, event: EncryptEvent) -> (step: (
    EncryptState,
    EncryptAction,
))
    requires
        state is Contents && event is Contents ==> crypto::sealable(event->data@.len()),
    ensures
        encrypt_transition(state, event, step.0, step.1),
{
    match (state, event) {
        (EncryptState::Path, EncryptEvent::Line(line)) => {
            if line.as_str().is_empty() {
                (EncryptState::Done, EncryptAction::Stop(EncryptStop::Cancelled))
            } else {
                let path = line.clone();
                (EncryptState::Existence { path: line }, EncryptAction::CheckExists(path))
            }
        },
        (EncryptState::Existence { path }, EncryptEvent::Exists(exists)) => {
            if exists {
                (EncryptState::Password { path }, EncryptAction::AskPassword)
            } else {
                (EncryptState::Done, EncryptAction::Stop(EncryptStop::FileMissing))
            }
        },
        (EncryptState::Password { path }, EncryptEvent::Line(line)) => {
            let len: usize = line.as_str().as_bytes().len();
            if len < MIN_PASSWORD_LEN {
                (EncryptState::Done, EncryptAction::Stop(EncryptStop::PasswordTooShort))
            } else if len > MAX_PASSWORD_LEN {
                (EncryptState::Done, EncryptAction::Stop(EncryptStop::PasswordTooLong))
            } else {
                (
                    EncryptState::Confirmation { path, password: line },
                    EncryptAction::AskConfirmation,
                )
            }
        },
        (EncryptState::Confirmation { path, password }, EncryptEvent::Line(line)) => {
            if password == line {
                (EncryptState::Contents { password }, EncryptAction::ReadFile(path))
            } else {
                (EncryptState::Done, EncryptAction::Stop(EncryptStop::PasswordMismatch))
            }
        },
        (
            EncryptState::Contents { password },
            EncryptEvent::Contents { data, file_name },
        ) => {
            match seal_file(data.as_slice(), password.as_str(), file_name) {
                Ok(payload) => (EncryptState::Serialization, EncryptAction::Serialize(payload)),
                Err(e) => (EncryptState::Done, EncryptAction::Fail(e)),
            }
        },
        (EncryptState::Serialization, EncryptEvent::Json(json)) => {
            (
                EncryptState::Storing,
                EncryptAction::Store(container::frame_payload(json.as_str())),
            )
        },
        (EncryptState::Contents { .. }, EncryptEvent::ReadFailed(error)) => {
            (EncryptState::Done, EncryptAction::Fail(CryptoError::from(error)))
        },
        (EncryptState::Serialization, EncryptEvent::JsonFailed(error)) => {
            (EncryptState::Done, EncryptAction::Fail(CryptoError::from(error)))
        },
        (EncryptState::Storing, EncryptEvent::Stored) => {
            (EncryptState::Done, EncryptAction::Report)
        },
        (EncryptState::Storing, EncryptEvent::StoreFailed(error)) => {
            (EncryptState::Done, EncryptAction::Fail(CryptoError::from(error)))
        },
        (state, _) => (state, EncryptAction::Ignore),
    }
}

/// Every password that is held has an acceptable length.
pub open spec fn holds_acceptable_password(s: EncryptState) -> bool {
    match s {
        EncryptState::Confirmation { password, .. } => acceptable_password(password@),
        EncryptState::Contents { password } => acceptable_password(password@),
        _ => true,
    }
}

/// A file is encrypted only under a password of an acceptable length: every step keeps
/// it so.
pub proof fn law_only_acceptable_passwords_are_used(
    s: EncryptState,
    e: EncryptEvent,
    next: EncryptState,
    a: EncryptAction,
)
    requires
        holds_acceptable_password(s),
        encrypt_transition(s, e, next, a),
    ensures
        holds_acceptable_password(next),
{
}

/// Under a password of an acceptable length every file that is not longer than the
/// cipher takes is encrypted.
pub proof fn law_acceptable_password_encrypts(
    s: EncryptState,
    e: EncryptEvent,
    next: EncryptState,
    a: EncryptAction,
)
    requires
        s is Contents && e is Contents,
        holds_acceptable_password(s),
        encrypt_transition(s, e, next, a),
    ensures
        a is Serialize <==> e->data@.len() <= primitives::aes_limit(),
{
}

/// A file is read only after its password has been typed twice alike, and a payload is
/// made only of a file that was read.
pub proof fn law_file_is_read_only_after_confirmation(
    s: EncryptState,
    e: EncryptEvent,
    next: EncryptState,
    a: EncryptAction,
)
    requires
        encrypt_transition(s, e, next, a),
    ensures
        a is ReadFile ==> s is Confirmation && e is Line && s->Confirmation_password@ == e->Line_0@,
        next is Contents && !(s is Contents) ==> a is ReadFile,
        a is Serialize ==> s is Contents && e is Contents && crypto::decrypted(
            a->Serialize_0@,
            s->Contents_password@,
        ) == Some(Ok::<Seq<u8>, ErrorView>(e->data@)),
{
}

/// A success is told only after the encrypted file was stored.
pub proof fn law_success_is_told_after_storing(
    s: EncryptState,
    e: EncryptEvent,
    next: EncryptState,
    a: EncryptAction,
)
    requires
        encrypt_transition(s, e, next, a),
    ensures
        a is Report ==> s is Storing && e is Stored,
        next is Storing && !(s is Storing) ==> a is Store,
        a is Store ==> s is Serialization && e is Json,
{
}

/// What is stored behind a program without a marker is found again as the very JSON text
/// that the payload was turned into.
pub proof fn law_stored_payload_is_found(
    program: Seq<u8>,
    json: Seq<char>,
    e: EncryptEvent,
    next: EncryptState,
    a: EncryptAction,
)
    requires
        !container::has_marker(program),
        e is Json && e->Json_0@ == json,
        encrypt_transition(EncryptState::Serialization, e, next, a),
    ensures
        a is Store,
        container::embedded_payload(program + a->Store_0@) == Some(encode_utf8(json)),
{
    container::law_extract_gives_back_frame(program, encode_utf8(json));
}

} // verus!
