//! The two courses of decrypting the payload that a program carries.
//!
//! `decrypt_step` is the course of a self-extracting program: one password, one try.
//! `menu_decrypt_step` is the course that is offered in a menu and counts the attempts.
use crate::attempts;
use crate::attempts::AttemptLog;
use crate::container;
use crate::crypto;
use crate::crypto::EncryptedPayload;
use crate::encrypt_flow;
use crate::encrypt_flow::{EncryptAction, EncryptEvent, EncryptState};
use crate::error::{CryptoError, ErrorView};
use crate::names;
use vstd::prelude::*;
use vstd::string::*;
use vstd::utf8::*;

verus! {

/// What is known while a self-extracting program decrypts its payload.
pub enum DecryptState {
    /// The program's own file is being read.
    Image,
    /// The payload is being read from JSON.
    Payload,
    /// The password has been asked for.
    Password { payload: EncryptedPayload },
    /// The decrypted file is being saved.
    Saving,
    /// There is nothing left to do.
    Done,
}

/// What has happened outside.
pub enum DecryptEvent {
    /// The program's own file.
    Image(Vec<u8>),
    /// The payload, or nothing where the JSON was no payload.
    Parsed(Option<EncryptedPayload>),
    /// The user typed this, already trimmed.
    Line(String),
    /// The decrypted file was saved under this path.
    Saved(String),
    /// There is no current directory, for the reason given.
    NoDirectory(String),
    /// The decrypted file could not be written, for the reason given.
    WriteFailed(String),
}

/// What is to be done outside.
pub enum DecryptAction {
    /// Read a payload from this JSON.
    Parse(Vec<u8>),
    /// Ask for the password.
    AskPassword,
    /// Save the contents under the name in the current directory, or under the first
    /// numbered name that is free.
    Save { plaintext: Vec<u8>, original_filename: String },
    /// End, with what is to be told of success or failure.
    Finish(Result<String, String>),
    /// Give up at once: the payload is signed, but its nonce has a wrong length.
    Abort,
    /// Nothing: the event does not belong to the state.
    Ignore,
}

/// `a` ends the course with the failure `text`.
pub open spec fn fails_with(a: DecryptAction, text: Seq<char>) -> bool {
    match a {
        DecryptAction::Finish(Err(e)) => e@ == text,
        _ => false,
    }
}

/// `a` ends the course with the success `text`.
pub open spec fn succeeds_with(a: DecryptAction, text: Seq<char>) -> bool {
    match a {
        DecryptAction::Finish(Ok(m)) => m@ == text,
        _ => false,
    }
}

/// How one step of a self-extracting program goes: from state `s`, on event `e`, to
/// state `next` with action `a`.
pub open spec fn decrypt_transition(
    s: DecryptState,
    e: DecryptEvent,
    next: DecryptState,
    a: DecryptAction,
) -> bool {
    match (s, e) {
        (DecryptState::Image, DecryptEvent::Image(image)) => match container::embedded_payload(
            image@,
        ) {
            None => next is Done && fails_with(a, "✗ 无效的加密文件"@),
            Some(json) => next is Payload && match a {
                DecryptAction::Parse(bytes) => bytes@ == json,
                _ => false,
            },
        },
        (DecryptState::Payload, DecryptEvent::Parsed(None)) => next is Done && fails_with(
            a,
            "✗ 解密失败：无有效的加密数据"@,
        ),
        (DecryptState::Payload, DecryptEvent::Parsed(Some(payload))) => next
            == (DecryptState::Password { payload }) && a is AskPassword,
        (DecryptState::Password { payload }, DecryptEvent::Line(password)) => match crypto::decrypted(
            payload@,
            password@,
        ) {
            None => next is Done && a is Abort,
            Some(Err(_)) => next is Done && fails_with(a, "✗ 密码错误！"@),
            Some(Ok(contents)) => next is Saving && match a {
                DecryptAction::Save { plaintext, original_filename } => plaintext@ == contents
                    && original_filename@ == payload.original_filename@,
                _ => false,
            },
        },
        (DecryptState::Saving, DecryptEvent::Saved(path)) => next is Done && succeeds_with(
            a,
            "✓ 解密成功！文件已保存: "@ + path@,
        ),
        (DecryptState::Saving, DecryptEvent::NoDirectory(reason)) => next is Done && fails_with(
            a,
            "无法获取当前目录: "@ + reason@,
        ),
        (DecryptState::Saving, DecryptEvent::WriteFailed(reason)) => next is Done && fails_with(
            a,
            "写入文件失败: "@ + reason@,
        ),
        _ => next == s && a is Ignore,
    }
}

/// Decides what a self-extracting program does next.
pub fn decrypt_step(state: DecryptState, event: DecryptEvent) -> (step: (
    DecryptState,
    DecryptAction,
))
    ensures
        decrypt_transition(state, event, step.0, step.1),
{
    match (state, event) {
        (DecryptState::Image, DecryptEvent::Image(image)) => {
            match container::payload_bytes(image.as_slice()) {
                Some(json) => (DecryptState::Payload, DecryptAction::Parse(json)),
                None => (
                    DecryptState::Done,
                    DecryptAction::Finish(Err("✗ 无效的加密文件".to_owned())),
                ),
            }
        },
        (DecryptState::Payload, DecryptEvent::Parsed(parsed)) => {
            match parsed {
                Some(payload) => (DecryptState::Password { payload }, DecryptAction::AskPassword),
                None => (
                    DecryptState::Done,
                    DecryptAction::Finish(
                        Err("✗ 解密失败：无有效的加密数据".to_owned()),
                    ),
                ),
            }
        },
        (DecryptState::Password { payload }, DecryptEvent::Line(password)) => {
            match crypto::try_decrypt_data(&payload, password.as_str()) {
                Some(Ok(plaintext)) => (
                    DecryptState::Saving,
                    DecryptAction::Save { plaintext, original_filename: payload.original_filename },
                ),
                Some(Err(_)) => (
                    DecryptState::Done,
                    DecryptAction::Finish(Err("✗ 密码错误！".to_owned())),
                ),
                None => (DecryptState::Done, DecryptAction::Abort),
            }
        },
        (DecryptState::Saving, DecryptEvent::Saved(path)) => {
            (
                DecryptState::Done,
                DecryptAction::Finish(
                    Ok("✓ 解密成功！文件已保存: ".to_owned().concat(path.as_str())),
                ),
            )
        },
        (DecryptState::Saving, DecryptEvent::NoDirectory(reason)) => {
            (
                DecryptState::Done,
                DecryptAction::Finish(
                    Err("无法获取当前目录: ".to_owned().concat(reason.as_str())),
                ),
            )
        },
        (DecryptState::Saving, DecryptEvent::WriteFailed(reason)) => {
            (
                DecryptState::Done,
                DecryptAction::Finish(Err("写入文件失败: ".to_owned().concat(reason.as_str()))),
            )
        },
        (state, _) => (state, DecryptAction::Ignore),
    }
}

/// What is known while a payload is decrypted from the menu.
pub enum MenuDecryptState {
    /// The log of attempts is being read.
    Lock,
    /// The password has been asked for.
    Password,
    /// The attempt is being recorded.
    Attempt { password: String },
    /// The program's own file is being read.
    Image { password: String },
    /// The payload is being read from JSON.
    Payload { password: String },
    /// The log of attempts is being cleared.
    Clearing { plaintext: Vec<u8>, original_filename: String },
    /// The decrypted file is being saved.
    Saving,
    /// There is nothing left to do.
    Done,
}

/// What has happened outside.
pub enum MenuDecryptEvent {
    /// The entry of the log for this program, and the time.
    Log { log: Option<AttemptLog>, now: u64 },
    /// The user typed this, already trimmed.
    Line(String),
    /// What came of recording the attempt.
    Recorded(Result<u32, CryptoError>),
    /// The program's own file.
    Image(Vec<u8>),
    /// The payload, or nothing where the JSON was no payload.
    Parsed(Option<EncryptedPayload>),
    /// The entry of the log for this program was removed.
    Cleared,
    /// The decrypted file was saved.
    Saved,
    /// The program's own file could not be read, or the decrypted file not be saved.
    Failed(std::io::Error),
}

/// What is to be done outside.
pub enum MenuDecryptAction {
    /// Warn that there is but one try, and ask for the password.
    AskPassword,
    /// Record the attempt.
    RecordAttempt,
    /// Tell how many attempts are left, where that is given, and read the program's own
    /// file.
    ReadImage { remaining: Option<u32> },
    /// Read a payload from this JSON.
    Parse(Vec<u8>),
    /// Clear the log of attempts for this program.
    ClearLog,
    /// Save the contents under the name in the current directory, or under the first
    /// numbered name that is free.
    Save { plaintext: Vec<u8>, original_filename: String },
    /// Remove the program.
    Cleanup,
    /// End without a result, for the reason given.
    Stop(MenuDecryptStop),
    /// End with an error.
    Fail(CryptoError),
    /// Give up at once: the payload is signed, but its nonce has a wrong length.
    Abort,
    /// Nothing: the event does not belong to the state.
    Ignore,
}

/// Why nothing is decrypted.
pub enum MenuDecryptStop {
    /// The program is locked for so many seconds.
    LockedFor(u64),
    /// The program has been locked since it was last looked at.
    Locked,
    /// The program carries no payload.
    NotEncrypted,
    /// What the program carries is no payload.
    NoPayload,
    /// The password is wrong or the payload damaged.
    WrongPassword,
}

/// How one step of decrypting from the menu goes: from state `s`, on event `e`, to state
/// `next` with action `a`.
pub open spec fn menu_decrypt_transition(
    s: MenuDecryptState,
    e: MenuDecryptEvent,
    next: MenuDecryptState,
    a: MenuDecryptAction,
) -> bool {
    match (s, e) {
        (MenuDecryptState::Lock, MenuDecryptEvent::Log { log, now }) => if log is Some
            && attempts::is_locked(Some(log->0@), now) {
            next is Done && a == MenuDecryptAction::Stop(
                MenuDecryptStop::LockedFor((log->0.locked_until->0 - now) as u64),
            )
        } else {
            next is Password && a is AskPassword
        },
        (MenuDecryptState::Password, MenuDecryptEvent::Line(password)) => next == (
        MenuDecryptState::Attempt { password }) && a is RecordAttempt,
        (
            MenuDecryptState::Attempt { password },
            MenuDecryptEvent::Recorded(Ok(count)),
        ) => next == (MenuDecryptState::Image { password }) && a == (
        MenuDecryptAction::ReadImage {
            remaining: if count > 1 {
                Some((attempts::MAX_ATTEMPTS - count) as u32)
            } else {
                None
            },
        }),
        (
            MenuDecryptState::Attempt { password },
            MenuDecryptEvent::Recorded(Err(error)),
        ) => next is Done && (if error is MaxAttemptsExceeded {
            a == MenuDecryptAction::Stop(MenuDecryptStop::Locked)
        } else {
            a == MenuDecryptAction::Fail(error)
        }),
        (
            MenuDecryptState::Image { password },
            MenuDecryptEvent::Image(image),
        ) => match container::embedded_payload(image@) {
            None => next is Done && a == MenuDecryptAction::Stop(MenuDecryptStop::NotEncrypted),
            Some(json) => next == (MenuDecryptState::Payload { password }) && match a {
                MenuDecryptAction::Parse(bytes) => bytes@ == json,
                _ => false,
            },
        },
        (MenuDecryptState::Payload { password }, MenuDecryptEvent::Parsed(None)) => next is Done
            && a == MenuDecryptAction::Stop(MenuDecryptStop::NoPayload),
        (
            MenuDecryptState::Payload { password },
            MenuDecryptEvent::Parsed(Some(payload)),
        ) => match crypto::decrypted(payload@, password@) {
            None => next is Done && a is Abort,
            Some(Err(_)) => next is Done && a == MenuDecryptAction::Stop(
                MenuDecryptStop::WrongPassword,
            ),
            Some(Ok(contents)) => a is ClearLog && match next {
                MenuDecryptState::Clearing { plaintext, original_filename } => plaintext@
                    == contents && original_filename@ == payload.original_filename@,
                _ => false,
            },
        },
        (
            MenuDecryptState::Clearing { plaintext, original_filename },
            MenuDecryptEvent::Cleared,
        ) => next is Saving && a == (MenuDecryptAction::Save { plaintext, original_filename }),
        (MenuDecryptState::Saving, MenuDecryptEvent::Saved) => next is Done && a is Cleanup,
        (MenuDecryptState::Image { password }, MenuDecryptEvent::Failed(error)) => next is Done && a
            == MenuDecryptAction::Fail(CryptoError::IoError(error)),
        (MenuDecryptState::Saving, MenuDecryptEvent::Failed(error)) => next is Done && a
            == MenuDecryptAction::Fail(CryptoError::IoError(error)),
        _ => next == s && a is Ignore,
    }
}

/// Decides what is done next while a payload is decrypted from the menu.
pub fn menu_decrypt_step(state: MenuDecryptState, event: MenuDecryptEvent) -> (step: (
    MenuDecryptState,
    MenuDecryptAction,
))
    requires
        state is Attempt && event is Recorded && event->Recorded_0 is Ok
            ==> event->Recorded_0->Ok_0 <= attempts::MAX_ATTEMPTS,
    ensures
        menu_decrypt_transition(state, event, step.0, step.1),
{
    match (state, event) {
        (MenuDecryptState::Lock, MenuDecryptEvent::Log { log, now }) => {
            match attempts::lock_remaining(&log, now) {
                Some(seconds) => (
                    MenuDecryptState::Done,
                    MenuDecryptAction::Stop(MenuDecryptStop::LockedFor(seconds)),
                ),
                None => (MenuDecryptState::Password, MenuDecryptAction::AskPassword),
            }
        },
        (MenuDecryptState::Password, MenuDecryptEvent::Line(password)) => {
            (MenuDecryptState::Attempt { password }, MenuDecryptAction::RecordAttempt)
        },
        (MenuDecryptState::Attempt { password }, MenuDecryptEvent::Recorded(recorded)) => {
            match recorded {
                Ok(count) => {
                    let remaining = attempts::remaining_attempts(count);
                    (
                        MenuDecryptState::Image { password },
                        MenuDecryptAction::ReadImage { remaining },
                    )
                },
                Err(CryptoError::MaxAttemptsExceeded) => (
                    MenuDecryptState::Done,
                    MenuDecryptAction::Stop(MenuDecryptStop::Locked),
                ),
                Err(error) => (MenuDecryptState::Done, MenuDecryptAction::Fail(error)),
            }
        },
        (MenuDecryptState::Image { password }, MenuDecryptEvent::Image(image)) => {
            match container::payload_bytes(image.as_slice()) {
                Some(json) => (
                    MenuDecryptState::Payload { password },
                    MenuDecryptAction::Parse(json),
                ),
                None => (
                    MenuDecryptState::Done,
                    MenuDecryptAction::Stop(MenuDecryptStop::NotEncrypted),
                ),
            }
        },
        (MenuDecryptState::Payload { password }, MenuDecryptEvent::Parsed(parsed)) => {
            match parsed {
                Some(payload) => match crypto::try_decrypt_data(&payload, password.as_str()) {
                    Some(Ok(plaintext)) => (
                        MenuDecryptState::Clearing {
                            plaintext,
                            original_filename: payload.original_filename,
                        },
                        MenuDecryptAction::ClearLog,
                    ),
                    Some(Err(_)) => (
                        MenuDecryptState::Done,
                        MenuDecryptAction::Stop(MenuDecryptStop::WrongPassword),
                    ),
                    None => (MenuDecryptState::Done, MenuDecryptAction::Abort),
                },
                None => (
                    MenuDecryptState::Done,
                    MenuDecryptAction::Stop(MenuDecryptStop::NoPayload),
                ),
            }
        },
        (MenuDecryptState::Saving, MenuDecryptEvent::Saved) => {
            (MenuDecryptState::Done, MenuDecryptAction::Cleanup)
        },
        (
            MenuDecryptState::Clearing { plaintext, original_filename },
            MenuDecryptEvent::Cleared,
        ) => {
            (MenuDecryptState::Saving, MenuDecryptAction::Save { plaintext, original_filename })
        },
        (MenuDecryptState::Image { .. }, MenuDecryptEvent::Failed(error)) => {
            (MenuDecryptState::Done, MenuDecryptAction::Fail(CryptoError::from(error)))
        },
        (MenuDecryptState::Saving, MenuDecryptEvent::Failed(error)) => {
            (MenuDecryptState::Done, MenuDecryptAction::Fail(CryptoError::from(error)))
        },
        (state, _) => (state, MenuDecryptAction::Ignore),
    }
}

/// A self-extracting program gives one try: once a password has been typed, no further
/// one is ever asked for.
pub proof fn law_one_password_only(
    s: DecryptState,
    e: DecryptEvent,
    next: DecryptState,
    a: DecryptAction,
)
    requires
        decrypt_transition(s, e, next, a),
    ensures
        s is Password && e is Line ==> next is Saving || next is Done,
        s is Saving ==> next is Saving || next is Done,
        s is Done ==> next is Done && a is Ignore,
        s is Saving || s is Done ==> !(a is AskPassword),
{
}

/// A program saves only what its payload holds under the password that was typed.
pub proof fn law_saved_contents_are_decrypted(
    s: DecryptState,
    e: DecryptEvent,
    next: DecryptState,
    a: DecryptAction,
)
    requires
        decrypt_transition(s, e, next, a),
        a is Save,
    ensures
        s is Password && e is Line,
        crypto::decrypted(s->payload@, e->Line_0@) == Some(
            Ok::<Seq<u8>, ErrorView>(a->plaintext@),
        ),
{
}

/// A file that was encrypted is recovered: the payload that was made of it, read back
/// from JSON with the same texts and opened with the same password, is saved with the
/// contents and under the name that the file had.
pub proof fn law_encrypted_file_is_recovered(
    encrypting: EncryptState,
    file: EncryptEvent,
    serializing: EncryptState,
    made: EncryptAction,
    payload: EncryptedPayload,
    typed: DecryptEvent,
    next: DecryptState,
    a: DecryptAction,
)
    requires
        encrypting is Contents && file is Contents && made is Serialize,
        encrypt_flow::encrypt_transition(encrypting, file, serializing, made),
        payload@ == made->Serialize_0@,
        typed is Line && typed->Line_0@ == encrypting->Contents_password@,
        decrypt_transition(DecryptState::Password { payload }, typed, next, a),
    ensures
        a is Save,
        a->plaintext@ == file->data@,
        a->original_filename@ == names::remembered_name(names::optional(file->file_name)),
{
    assert(payload.original_filename@ == payload@.original_filename);
}

/// A file that was encrypted is recovered from the menu as well, once the log of attempts
/// has been cleared.
pub proof fn law_encrypted_file_is_recovered_from_menu(
    encrypting: EncryptState,
    file: EncryptEvent,
    serializing: EncryptState,
    made: EncryptAction,
    payload: EncryptedPayload,
    password: String,
    clearing: MenuDecryptState,
    clear: MenuDecryptAction,
    next: MenuDecryptState,
    a: MenuDecryptAction,
)
    requires
        encrypting is Contents && file is Contents && made is Serialize,
        encrypt_flow::encrypt_transition(encrypting, file, serializing, made),
        payload@ == made->Serialize_0@,
        password@ == encrypting->Contents_password@,
        menu_decrypt_transition(
            MenuDecryptState::Payload { password },
            MenuDecryptEvent::Parsed(Some(payload)),
            clearing,
            clear,
        ),
        menu_decrypt_transition(clearing, MenuDecryptEvent::Cleared, next, a),
    ensures
        clear is ClearLog,
        a is Save,
        a->plaintext@ == file->data@,
        a->original_filename@ == names::remembered_name(names::optional(file->file_name)),
{
    assert(payload.original_filename@ == payload@.original_filename);
}

/// A program without a marker, with what was stored behind it, parses the very JSON text
/// that the payload was turned into, whichever course it takes.
pub proof fn law_stored_payload_is_parsed(
    program: Seq<u8>,
    json: EncryptEvent,
    stored: EncryptAction,
    done: EncryptState,
    image: Vec<u8>,
    password: String,
    next: DecryptState,
    a: DecryptAction,
    menu_next: MenuDecryptState,
    menu_a: MenuDecryptAction,
)
    requires
        !container::has_marker(program),
        json is Json,
        encrypt_flow::encrypt_transition(EncryptState::Serialization, json, done, stored),
        image@ == program + stored->Store_0@,
        decrypt_transition(DecryptState::Image, DecryptEvent::Image(image), next, a),
        menu_decrypt_transition(
            MenuDecryptState::Image { password },
            MenuDecryptEvent::Image(image),
            menu_next,
            menu_a,
        ),
    ensures
        a is Parse && a->Parse_0@ == encode_utf8(json->Json_0@),
        menu_a is Parse && menu_a->Parse_0@ == encode_utf8(json->Json_0@),
{
    encrypt_flow::law_stored_payload_is_found(program, json->Json_0@, json, done, stored);
}

/// The whole way of a file: encrypted under a password and stored behind a program without
/// a marker, it comes out of the program that was so made, under the same password, with
/// the same contents and under the name that the file had, and the end is a success. The
/// JSON text between the two ways must give back the texts of the payload that was turned
/// into it.
pub proof fn law_file_comes_back_from_its_program(
    program: Seq<u8>,
    password: String,
    file: EncryptEvent,
    serializing: EncryptState,
    made: EncryptAction,
    json: EncryptEvent,
    stored_state: EncryptState,
    stored: EncryptAction,
    image: Vec<u8>,
    parsing: DecryptState,
    parse: DecryptAction,
    payload: EncryptedPayload,
    asking: DecryptState,
    ask: DecryptAction,
    typed: String,
    saving: DecryptState,
    save: DecryptAction,
    path: String,
    end: DecryptState,
    told: DecryptAction,
)
    requires
        !container::has_marker(program),
        encrypt_flow::encrypt_transition(
            EncryptState::Contents { password },
            file,
            serializing,
            made,
        ),
        file is Contents && made is Serialize,
        encrypt_flow::encrypt_transition(serializing, json, stored_state, stored),
        json is Json,
        image@ == program + stored->Store_0@,
        decrypt_transition(DecryptState::Image, DecryptEvent::Image(image), parsing, parse),
        payload@ == made->Serialize_0@,
        decrypt_transition(parsing, DecryptEvent::Parsed(Some(payload)), asking, ask),
        typed@ == password@,
        decrypt_transition(asking, DecryptEvent::Line(typed), saving, save),
        decrypt_transition(saving, DecryptEvent::Saved(path), end, told),
    ensures
        parse is Parse && parse->Parse_0@ == encode_utf8(json->Json_0@),
        ask is AskPassword,
        save is Save,
        save->plaintext@ == file->data@,
        save->original_filename@ == names::remembered_name(names::optional(file->file_name)),
        end is Done,
        succeeds_with(told, "✓ 解密成功！文件已保存: "@ + path@),
{
    encrypt_flow::law_stored_payload_is_found(program, json->Json_0@, json, stored_state, stored);
    law_encrypted_file_is_recovered(
        EncryptState::Contents { password },
        file,
        serializing,
        made,
        payload,
        DecryptEvent::Line(typed),
        saving,
        save,
    );
}

/// From the menu a payload is read only after the attempt on it has been recorded, and
/// nothing is asked for while the program is locked.
pub proof fn law_attempt_is_recorded_before_decryption(
    s: MenuDecryptState,
    e: MenuDecryptEvent,
    next: MenuDecryptState,
    a: MenuDecryptAction,
)
    requires
        menu_decrypt_transition(s, e, next, a),
    ensures
        next is Image && !(s is Image) ==> s is Attempt && e is Recorded && e->Recorded_0 is Ok,
        next is Payload && !(s is Payload) ==> s is Image,
        next is Clearing && !(s is Clearing) ==> s is Payload,
        a is Save ==> s is Clearing,
        s is Lock && e is Log && e->log is Some && attempts::is_locked(Some(e->log->0@), e->now)
            ==> next is Done && a is Stop,
{
}

/// From the menu the log of attempts is cleared only when the payload has been decrypted,
/// and nothing is saved before it has been cleared.
pub proof fn law_log_is_cleared_between_decryption_and_saving(
    s: MenuDecryptState,
    e: MenuDecryptEvent,
    next: MenuDecryptState,
    a: MenuDecryptAction,
)
    requires
        menu_decrypt_transition(s, e, next, a),
    ensures
        a is ClearLog ==> s is Payload && e is Parsed && e->Parsed_0 is Some && next is Clearing
            && crypto::decrypted(e->Parsed_0->0@, s->Payload_password@) == Some(
            Ok::<Seq<u8>, ErrorView>(next->plaintext@),
        ),
        next is Clearing && !(s is Clearing) ==> a is ClearLog,
        a is Save ==> s is Clearing && e is Cleared && a->plaintext@ == s->plaintext@,
        next is Saving && !(s is Saving) ==> a is Save,
{
}

} // verus!
