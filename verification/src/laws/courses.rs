//! The laws of starting, encrypting and decrypting: what each input is answered with.
use crate::attempts;
use crate::attempts::AttemptLog;
use crate::container;
use crate::container::ENCRYPTED_MARKER;
use crate::crypto;
use crate::crypto::EncryptedPayload;
use crate::decrypt_flow;
use crate::decrypt_flow::{
    DecryptAction, DecryptEvent, DecryptState, MenuDecryptAction, MenuDecryptEvent,
    MenuDecryptState, MenuDecryptStop,
};
use crate::encrypt_flow;
use crate::encrypt_flow::{EncryptAction, EncryptEvent, EncryptState, EncryptStop};
use crate::error::{CryptoError, ErrorView};
use crate::laws::layout;
use crate::laws::payloads;
use crate::primitives;
use crate::startup;
use crate::startup::{MenuChoice, StartAction, StartEvent, StartState};
use vstd::prelude::*;
use vstd::string::*;
use vstd::utf8::*;

verus! {

/// What a program does when it is started: one that carries the marker records its run; any
/// other encrypts exactly if there is no argument behind its name, decrypts if the first
/// one is `--decrypt`, and otherwise reads the file that the first one names.
pub proof fn law_start_goes_by_marker_and_first_argument(
    image: Vec<u8>,
    args: Vec<String>,
    next: StartState,
    a: StartAction,
)
    requires
        startup::start_transition(
            StartState::Launch,
            StartEvent::Launch { image, args },
            next,
            a,
        ),
    ensures
        ({
            let marked = exists|at: int|
                0 <= at && at + 24 <= image@.len() && #[trigger] image@.subrange(at, at + 24)
                    == ENCRYPTED_MARKER@;
            let decrypt = args@.len() >= 2 && args@[1]@ == "--decrypt"@;
            &&& a is RecordRun <==> marked
            &&& a is Encrypt <==> !marked && args@.len() <= 1
            &&& a == (StartAction::Decrypt { remove_program: false }) <==> !marked && decrypt
            &&& a is ReadNamedFile <==> !marked && args@.len() >= 2 && !decrypt
            &&& a is ReadNamedFile ==> a->ReadNamedFile_0@ == args@[1]@
            &&& next is SingleRun <==> marked
            &&& next is NamedFile <==> a is ReadNamedFile
            &&& next is Decided <==> a is Encrypt || a is Decrypt
        }),
{
    layout::law_encrypted_exactly_if_marker_bytes_stand_in_it(image@);
}

/// A file that was named is decrypted exactly if it could be read and the marker stands in
/// it; otherwise it is refused.
pub proof fn law_named_file_is_decrypted_exactly_if_encrypted(
    contents: Option<Vec<u8>>,
    next: StartState,
    a: StartAction,
)
    requires
        startup::start_transition(
            StartState::NamedFile,
            StartEvent::Contents(contents),
            next,
            a,
        ),
    ensures
        ({
            let encrypted = contents is Some && exists|at: int|
                0 <= at && at + 24 <= contents->0@.len() && #[trigger] contents->0@.subrange(
                    at,
                    at + 24,
                ) == ENCRYPTED_MARKER@;
            &&& encrypted ==> a == (StartAction::Decrypt { remove_program: false })
            &&& !encrypted ==> a is RefuseNamedFile
            &&& next is Decided
        }),
{
    if contents is Some {
        layout::law_encrypted_exactly_if_marker_bytes_stand_in_it(contents->0@);
    }
}

/// A run may be recorded exactly if there is a place for the record and none there yet; it
/// counts exactly if it was free and written; and then the program decrypts and removes
/// itself, while every other run is refused.
pub proof fn law_program_runs_exactly_once(
    has_place: bool,
    has_record: bool,
    free: bool,
    written: bool,
    next: StartState,
    a: StartAction,
)
    requires
        startup::start_transition(
            StartState::SingleRun,
            StartEvent::Recorded(startup::run_counts(free, written)),
            next,
            a,
        ),
    ensures
        startup::run_is_free(has_place, has_record) <==> has_place && !has_record,
        free && written ==> a == (StartAction::Decrypt { remove_program: true }),
        !(free && written) ==> a is RefuseSecondRun,
        next is Decided,
{
}

/// What the main menu takes: one text each for encrypting and for being told about the
/// program, three for leaving, and every other text for none of them.
pub proof fn law_menu_takes_five_texts(choice: Seq<char>)
    ensures
        startup::chosen(choice) is Encrypt <==> choice == seq!['1'],
        startup::chosen(choice) is About <==> choice == seq!['2'],
        startup::chosen(choice) is Quit <==> choice == seq!['3'] || choice == seq!['q'] || choice
            == seq!['Q'],
{
    reveal_strlit("1");
    reveal_strlit("2");
    reveal_strlit("3");
    reveal_strlit("q");
    reveal_strlit("Q");
    assert("1"@ =~= seq!['1'] && "2"@ =~= seq!['2'] && "3"@ =~= seq!['3']);
    assert("q"@ =~= seq!['q'] && "Q"@ =~= seq!['Q']);
    assert(seq!['1'][0] == '1' && seq!['2'][0] == '2' && seq!['3'][0] == '3');
    assert(seq!['q'][0] == 'q' && seq!['Q'][0] == 'Q');
}

/// A path that was typed is looked up as it is, and only an empty one ends the course; a
/// file that is there leads on, with the same path, and one that is not ends the course.
pub proof fn law_typed_path_is_looked_up(
    line: String,
    looking: EncryptState,
    look: EncryptAction,
    path: String,
    exists: bool,
    next: EncryptState,
    a: EncryptAction,
)
    requires
        encrypt_flow::encrypt_transition(
            EncryptState::Path,
            EncryptEvent::Line(line),
            looking,
            look,
        ),
        encrypt_flow::encrypt_transition(
            EncryptState::Existence { path },
            EncryptEvent::Exists(exists),
            next,
            a,
        ),
    ensures
        line@.len() == 0 ==> looking is Done && look == EncryptAction::Stop(EncryptStop::Cancelled),
        line@.len() > 0 ==> looking == (EncryptState::Existence { path: line }) && look
            is CheckExists && look->CheckExists_0@ == line@,
        exists ==> next == (EncryptState::Password { path }) && a is AskPassword,
        !exists ==> next is Done && a == EncryptAction::Stop(EncryptStop::FileMissing),
{
}

/// A password is taken exactly if it has from 8 to 32 bytes; it is kept as it was typed, and
/// so is the path.
pub proof fn law_password_has_8_to_32_bytes(
    path: String,
    line: String,
    next: EncryptState,
    a: EncryptAction,
)
    requires
        encrypt_flow::encrypt_transition(
            EncryptState::Password { path },
            EncryptEvent::Line(line),
            next,
            a,
        ),
    ensures
        encode_utf8(line@).len() < 8 <==> a == EncryptAction::Stop(EncryptStop::PasswordTooShort),
        encode_utf8(line@).len() > 32 <==> a == EncryptAction::Stop(EncryptStop::PasswordTooLong),
        8 <= encode_utf8(line@).len() <= 32 <==> a is AskConfirmation,
        a is AskConfirmation ==> next == (EncryptState::Confirmation { path, password: line }),
        !(a is AskConfirmation) ==> next is Done,
{
}

/// A password is confirmed exactly if all of it is typed again; then the file at the path
/// is read.
pub proof fn law_password_is_confirmed_exactly_if_repeated(
    path: String,
    password: String,
    line: String,
    next: EncryptState,
    a: EncryptAction,
)
    requires
        encrypt_flow::encrypt_transition(
            EncryptState::Confirmation { path, password },
            EncryptEvent::Line(line),
            next,
            a,
        ),
    ensures
        line@ == password@ ==> next == (EncryptState::Contents { password }) && a
            == EncryptAction::ReadFile(path),
        line@ != password@ ==> next is Done && a == EncryptAction::Stop(
            EncryptStop::PasswordMismatch,
        ),
{
}

/// What a file becomes under a password: a payload with its own name, or `unknown` where it
/// has none; and with the ciphertext of all its contents, under the key that Argon2 gives
/// for the whole password and a fresh salt.
pub proof fn law_file_is_encrypted_whole_and_under_its_name(
    password: String,
    data: Vec<u8>,
    file_name: Option<String>,
    next: EncryptState,
    a: EncryptAction,
)
    requires
        encrypt_flow::encrypt_transition(
            EncryptState::Contents { password },
            EncryptEvent::Contents { data, file_name },
            next,
            a,
        ),
    ensures
        a is Serialize <==> encode_utf8(password@).len() <= 0xFFFF_FFFF && data@.len()
            <= 0x10_0000_0000,
        a is Serialize <==> next is Serialization,
        !(a is Serialize) ==> a is Fail && next is Done,
        a is Serialize ==> {
            let payload = a->Serialize_0;
            let key = primitives::argon2_key(
                encode_utf8(password@),
                encode_utf8(payload.salt@),
            );
            let nonce = primitives::base64_bytes(payload.nonce@);
            &&& match file_name {
                Some(name) => payload.original_filename@ == name@,
                None => payload.original_filename@ == "unknown"@,
            }
            &&& payload.salt@.len() == 22 && primitives::unpadded_base64(payload.salt@)
            &&& nonce is Ok && nonce->Ok_0.len() == 12
            &&& payload.nonce@ == primitives::base64_text(nonce->Ok_0)
            &&& payload.ciphertext@ == primitives::base64_text(
                primitives::aes_seal(key, nonce->Ok_0, data@),
            )
            &&& payload.signature@ == primitives::base64_text(
                primitives::hmac_sha256(key, primitives::aes_seal(key, nonce->Ok_0, data@)),
            )
        },
{
    if a is Serialize {
        let payload = a->Serialize_0;
        assert(payload@.salt == payload.salt@ && payload@.nonce == payload.nonce@);
        assert(payload@.ciphertext == payload.ciphertext@);
        assert(payload@.signature == payload.signature@);
        assert(payload@.original_filename == payload.original_filename@);
    }
}

/// A file that has a name comes back under exactly that name and with exactly its contents,
/// whichever way it is decrypted.
pub proof fn law_file_comes_back_under_its_own_name(
    password: String,
    data: Vec<u8>,
    name: String,
    serializing: EncryptState,
    made: EncryptAction,
    payload: EncryptedPayload,
    typed: String,
    saving: DecryptState,
    save: DecryptAction,
    clearing: MenuDecryptState,
    clear: MenuDecryptAction,
    menu_saving: MenuDecryptState,
    menu_save: MenuDecryptAction,
)
    requires
        encrypt_flow::encrypt_transition(
            EncryptState::Contents { password },
            EncryptEvent::Contents { data, file_name: Some(name) },
            serializing,
            made,
        ),
        made is Serialize,
        payload@ == made->Serialize_0@,
        typed@ == password@,
        decrypt_flow::decrypt_transition(
            DecryptState::Password { payload },
            DecryptEvent::Line(typed),
            saving,
            save,
        ),
        decrypt_flow::menu_decrypt_transition(
            MenuDecryptState::Payload { password: typed },
            MenuDecryptEvent::Parsed(Some(payload)),
            clearing,
            clear,
        ),
        decrypt_flow::menu_decrypt_transition(
            clearing,
            MenuDecryptEvent::Cleared,
            menu_saving,
            menu_save,
        ),
    ensures
        made->Serialize_0.original_filename@ == name@,
        save is Save && save->original_filename@ == name@ && save->plaintext@ == data@,
        menu_save is Save && menu_save->original_filename@ == name@ && menu_save->plaintext@
            == data@,
{
    law_file_is_encrypted_whole_and_under_its_name(
        password,
        data,
        Some(name),
        serializing,
        made,
    );
    let out = made->Serialize_0;
    assert(out@.original_filename == out.original_filename@);
    assert(payload@.original_filename == payload.original_filename@);
}

/// The JSON text of a payload is stored whole behind the marker, and what goes wrong
/// outside is told as it came.
pub proof fn law_json_is_stored_whole_behind_marker(
    password: String,
    json: String,
    storing: EncryptState,
    store: EncryptAction,
    io: std::io::Error,
    unread: EncryptState,
    not_read: EncryptAction,
    unstored: EncryptState,
    not_stored: EncryptAction,
    bad: serde_json::Error,
    unwritten: EncryptState,
    not_written: EncryptAction,
    end: EncryptState,
    told: EncryptAction,
)
    requires
        encrypt_flow::encrypt_transition(
            EncryptState::Serialization,
            EncryptEvent::Json(json),
            storing,
            store,
        ),
        encrypt_flow::encrypt_transition(
            EncryptState::Contents { password },
            EncryptEvent::ReadFailed(io),
            unread,
            not_read,
        ),
        encrypt_flow::encrypt_transition(
            EncryptState::Storing,
            EncryptEvent::StoreFailed(io),
            unstored,
            not_stored,
        ),
        encrypt_flow::encrypt_transition(
            EncryptState::Serialization,
            EncryptEvent::JsonFailed(bad),
            unwritten,
            not_written,
        ),
        encrypt_flow::encrypt_transition(EncryptState::Storing, EncryptEvent::Stored, end, told),
    ensures
        storing is Storing && store is Store && store->Store_0@ == ENCRYPTED_MARKER@ + encode_utf8(
            json@,
        ),
        unread is Done && not_read == EncryptAction::Fail(CryptoError::IoError(io)),
        unstored is Done && not_stored == EncryptAction::Fail(CryptoError::IoError(io)),
        unwritten is Done && not_written == EncryptAction::Fail(
            CryptoError::SerializationError(bad),
        ),
        end is Done && told is Report,
{
}

/// A program goes on exactly if the marker stands in its file, and then parses all that
/// follows the first one, whichever course it takes.
pub proof fn law_all_behind_first_marker_is_parsed(
    image: Vec<u8>,
    at: int,
    password: String,
    next: DecryptState,
    a: DecryptAction,
    menu_next: MenuDecryptState,
    menu_a: MenuDecryptAction,
)
    requires
        decrypt_flow::decrypt_transition(
            DecryptState::Image,
            DecryptEvent::Image(image),
            next,
            a,
        ),
        decrypt_flow::menu_decrypt_transition(
            MenuDecryptState::Image { password },
            MenuDecryptEvent::Image(image),
            menu_next,
            menu_a,
        ),
    ensures
        0 <= at && at + 24 <= image@.len() && image@.subrange(at, at + 24) == ENCRYPTED_MARKER@ && (
        forall|j: int|
            0 <= j < at ==> #[trigger] image@.subrange(j, j + 24) != ENCRYPTED_MARKER@) ==> {
            let json = image@.subrange(at + 24, image@.len() as int);
            &&& next is Payload && a is Parse && a->Parse_0@ == json
            &&& menu_next == (MenuDecryptState::Payload { password })
            &&& menu_a is Parse && menu_a->Parse_0@ == json
        },
        (forall|j: int|
            0 <= j && j + 24 <= image@.len() ==> #[trigger] image@.subrange(j, j + 24)
                != ENCRYPTED_MARKER@) ==> {
            &&& next is Done && a is Finish && a->Finish_0 is Err
            &&& a->Finish_0->Err_0@ == "✗ 无效的加密文件"@
            &&& menu_next is Done && menu_a == MenuDecryptAction::Stop(
                MenuDecryptStop::NotEncrypted,
            )
        },
{
    layout::law_encrypted_exactly_if_marker_bytes_stand_in_it(image@);
    if 0 <= at && at + 24 <= image@.len() && image@.subrange(at, at + 24) == ENCRYPTED_MARKER@ && (
    forall|j: int|
        0 <= j < at ==> #[trigger] image@.subrange(j, j + 24) != ENCRYPTED_MARKER@) {
        layout::law_payload_is_all_behind_first_marker(image@, at);
    }
}

/// A payload leads to the question for the password, and to nothing else; without one the
/// course ends.
pub proof fn law_password_is_asked_for_a_payload(
    payload: EncryptedPayload,
    asking: DecryptState,
    ask: DecryptAction,
    end: DecryptState,
    told: DecryptAction,
    password: String,
    menu_end: MenuDecryptState,
    menu_told: MenuDecryptAction,
)
    requires
        decrypt_flow::decrypt_transition(
            DecryptState::Payload,
            DecryptEvent::Parsed(Some(payload)),
            asking,
            ask,
        ),
        decrypt_flow::decrypt_transition(
            DecryptState::Payload,
            DecryptEvent::Parsed(None),
            end,
            told,
        ),
        decrypt_flow::menu_decrypt_transition(
            MenuDecryptState::Payload { password },
            MenuDecryptEvent::Parsed(None),
            menu_end,
            menu_told,
        ),
    ensures
        asking == (DecryptState::Password { payload }) && ask is AskPassword,
        end is Done && told is Finish && told->Finish_0 is Err && told->Finish_0->Err_0@
            == "✗ 解密失败：无有效的加密数据"@,
        menu_end is Done && menu_told == MenuDecryptAction::Stop(MenuDecryptStop::NoPayload),
{
}

/// A password opens a payload exactly if the key that Argon2 gives for all of it signs and
/// opens the ciphertext; then the contents go out whole, under the payload's name, and in
/// every other case the password is told to be wrong, unless the payload is signed with a
/// nonce of another length than twelve.
pub proof fn law_password_opens_exactly_its_payload(
    payload: EncryptedPayload,
    password: String,
    next: DecryptState,
    a: DecryptAction,
    menu_next: MenuDecryptState,
    menu_a: MenuDecryptAction,
)
    requires
        decrypt_flow::decrypt_transition(
            DecryptState::Password { payload },
            DecryptEvent::Line(password),
            next,
            a,
        ),
        decrypt_flow::menu_decrypt_transition(
            MenuDecryptState::Payload { password },
            MenuDecryptEvent::Parsed(Some(payload)),
            menu_next,
            menu_a,
        ),
    ensures
        ({
            let key = primitives::argon2_key(
                encode_utf8(password@),
                encode_utf8(payload.salt@),
            );
            let ciphertext = primitives::base64_bytes(payload.ciphertext@);
            let code = primitives::base64_bytes(payload.signature@);
            let nonce = primitives::base64_bytes(payload.nonce@);
            let signed = primitives::salt_fault(payload.salt@) is None
                && primitives::argon2_hash_fault(encode_utf8(password@).len(), payload.salt@)
                is None && ciphertext is Ok && code is Ok && code->Ok_0
                == primitives::hmac_sha256(key, ciphertext->Ok_0);
            let contents = primitives::aes_open(key, nonce->Ok_0, ciphertext->Ok_0);
            let opens = signed && nonce is Ok && nonce->Ok_0.len() == 12 && contents is Some;
            let broken = signed && nonce is Ok && nonce->Ok_0.len() != 12;
            &&& opens ==> {
                &&& next is Saving && a is Save && a->plaintext@ == contents->0
                &&& a->original_filename@ == payload.original_filename@
                &&& menu_a is ClearLog && menu_next is Clearing
                &&& menu_next->plaintext@ == contents->0
                &&& menu_next->original_filename@ == payload.original_filename@
            }
            &&& broken ==> next is Done && a is Abort && menu_next is Done && menu_a is Abort
            &&& !opens && !broken ==> {
                &&& next is Done && a is Finish && a->Finish_0 is Err
                &&& a->Finish_0->Err_0@ == "✗ 密码错误！"@
                &&& menu_next is Done && menu_a == MenuDecryptAction::Stop(
                    MenuDecryptStop::WrongPassword,
                )
            }
        }),
{
    payloads::law_password_opens_with_its_key(payload@, password@);
    let key = primitives::argon2_key(encode_utf8(password@), encode_utf8(payload.salt@));
    payloads::law_refusals_come_in_order(payload@, key);
    match crypto::opened(payload@, key) {
        Some(Ok(contents)) => {
            payloads::law_contents_come_out_exactly_if_authentic(payload@, key, contents);
        },
        _ => {},
    }
}

/// What a self-extracting program tells in the end names the whole path, or the whole
/// reason.
pub proof fn law_end_tells_whole_path_or_reason(
    text: String,
    saved: DecryptState,
    told_saved: DecryptAction,
    nowhere: DecryptState,
    told_nowhere: DecryptAction,
    unwritten: DecryptState,
    told_unwritten: DecryptAction,
)
    requires
        decrypt_flow::decrypt_transition(
            DecryptState::Saving,
            DecryptEvent::Saved(text),
            saved,
            told_saved,
        ),
        decrypt_flow::decrypt_transition(
            DecryptState::Saving,
            DecryptEvent::NoDirectory(text),
            nowhere,
            told_nowhere,
        ),
        decrypt_flow::decrypt_transition(
            DecryptState::Saving,
            DecryptEvent::WriteFailed(text),
            unwritten,
            told_unwritten,
        ),
    ensures
        saved is Done && told_saved is Finish && told_saved->Finish_0 is Ok
            && told_saved->Finish_0->Ok_0@ == "✓ 解密成功！文件已保存: "@ + text@,
        nowhere is Done && told_nowhere is Finish && told_nowhere->Finish_0 is Err
            && told_nowhere->Finish_0->Err_0@ == "无法获取当前目录: "@ + text@,
        unwritten is Done && told_unwritten is Finish && told_unwritten->Finish_0 is Err
            && told_unwritten->Finish_0->Err_0@ == "写入文件失败: "@ + text@,
{
}

/// From the menu a password is asked for exactly if the entry of the log carries no lock
/// that still holds; otherwise the seconds that are left are told.
pub proof fn law_menu_asks_exactly_if_not_locked(
    log: Option<AttemptLog>,
    now: u64,
    next: MenuDecryptState,
    a: MenuDecryptAction,
)
    requires
        decrypt_flow::menu_decrypt_transition(
            MenuDecryptState::Lock,
            MenuDecryptEvent::Log { log, now },
            next,
            a,
        ),
    ensures
        ({
            let locked = log is Some && log->0.locked_until is Some && now
                < log->0.locked_until->0;
            &&& locked ==> next is Done && a is Stop && a->Stop_0 is LockedFor && now
                + a->Stop_0->LockedFor_0 == log->0.locked_until->0
            &&& !locked ==> next is Password && a is AskPassword
        }),
{
}

/// From the menu the password is kept as it was typed while its attempt is recorded; of
/// three attempts those that are left are told from the second on, and what hinders
/// recording is told as it came.
pub proof fn law_menu_keeps_password_over_recording(
    password: String,
    attempt: MenuDecryptState,
    record: MenuDecryptAction,
    count: u32,
    reading: MenuDecryptState,
    read: MenuDecryptAction,
    error: CryptoError,
    end: MenuDecryptState,
    told: MenuDecryptAction,
)
    requires
        count <= 3,
        decrypt_flow::menu_decrypt_transition(
            MenuDecryptState::Password,
            MenuDecryptEvent::Line(password),
            attempt,
            record,
        ),
        decrypt_flow::menu_decrypt_transition(
            MenuDecryptState::Attempt { password },
            MenuDecryptEvent::Recorded(Ok(count)),
            reading,
            read,
        ),
        decrypt_flow::menu_decrypt_transition(
            MenuDecryptState::Attempt { password },
            MenuDecryptEvent::Recorded(Err(error)),
            end,
            told,
        ),
    ensures
        attempt == (MenuDecryptState::Attempt { password }) && record is RecordAttempt,
        reading == (MenuDecryptState::Image { password }) && read is ReadImage,
        count <= 1 <==> read->remaining is None,
        count > 1 ==> read->remaining->0 + count == 3,
        end is Done,
        error is MaxAttemptsExceeded ==> told == MenuDecryptAction::Stop(MenuDecryptStop::Locked),
        !(error is MaxAttemptsExceeded) ==> told == MenuDecryptAction::Fail(error),
{
}

/// From the menu what was decrypted is saved whole and under its name once the log is
/// cleared, the program is removed once it is saved, and what goes wrong outside is told as
/// it came.
pub proof fn law_menu_saves_what_was_decrypted(
    password: String,
    plaintext: Vec<u8>,
    original_filename: String,
    saving: MenuDecryptState,
    save: MenuDecryptAction,
    end: MenuDecryptState,
    last: MenuDecryptAction,
    io: std::io::Error,
    unread: MenuDecryptState,
    not_read: MenuDecryptAction,
    unsaved: MenuDecryptState,
    not_saved: MenuDecryptAction,
)
    requires
        decrypt_flow::menu_decrypt_transition(
            MenuDecryptState::Clearing { plaintext, original_filename },
            MenuDecryptEvent::Cleared,
            saving,
            save,
        ),
        decrypt_flow::menu_decrypt_transition(
            MenuDecryptState::Saving,
            MenuDecryptEvent::Saved,
            end,
            last,
        ),
        decrypt_flow::menu_decrypt_transition(
            MenuDecryptState::Image { password },
            MenuDecryptEvent::Failed(io),
            unread,
            not_read,
        ),
        decrypt_flow::menu_decrypt_transition(
            MenuDecryptState::Saving,
            MenuDecryptEvent::Failed(io),
            unsaved,
            not_saved,
        ),
    ensures
        saving is Saving && save == (MenuDecryptAction::Save { plaintext, original_filename }),
        end is Done && last is Cleanup,
        unread is Done && not_read == MenuDecryptAction::Fail(CryptoError::IoError(io)),
        unsaved is Done && not_saved == MenuDecryptAction::Fail(CryptoError::IoError(io)),
{
}

/// An event that does not answer what was asked for last changes nothing, and after the end
/// of a course none does.
pub proof fn law_other_events_change_nothing(
    s: EncryptState,
    e: EncryptEvent,
    next: EncryptState,
    a: EncryptAction,
    ds: DecryptState,
    de: DecryptEvent,
    dnext: DecryptState,
    da: DecryptAction,
    ms: MenuDecryptState,
    me: MenuDecryptEvent,
    mnext: MenuDecryptState,
    ma: MenuDecryptAction,
    ss: StartState,
    se: StartEvent,
    snext: StartState,
    sa: StartAction,
)
    requires
        encrypt_flow::encrypt_transition(s, e, next, a),
        decrypt_flow::decrypt_transition(ds, de, dnext, da),
        decrypt_flow::menu_decrypt_transition(ms, me, mnext, ma),
        startup::start_transition(ss, se, snext, sa),
    ensures
        a is Ignore <==> match s {
            EncryptState::Path => !(e is Line),
            EncryptState::Existence { .. } => !(e is Exists),
            EncryptState::Password { .. } => !(e is Line),
            EncryptState::Confirmation { .. } => !(e is Line),
            EncryptState::Contents { .. } => !(e is Contents || e is ReadFailed),
            EncryptState::Serialization => !(e is Json || e is JsonFailed),
            EncryptState::Storing => !(e is Stored || e is StoreFailed),
            EncryptState::Done => true,
        },
        a is Ignore ==> next == s,
        da is Ignore <==> match ds {
            DecryptState::Image => !(de is Image),
            DecryptState::Payload => !(de is Parsed),
            DecryptState::Password { .. } => !(de is Line),
            DecryptState::Saving => !(de is Saved || de is NoDirectory || de is WriteFailed),
            DecryptState::Done => true,
        },
        da is Ignore ==> dnext == ds,
        ma is Ignore <==> match ms {
            MenuDecryptState::Lock => !(me is Log),
            MenuDecryptState::Password => !(me is Line),
            MenuDecryptState::Attempt { .. } => !(me is Recorded),
            MenuDecryptState::Image { .. } => !(me is Image || me is Failed),
            MenuDecryptState::Payload { .. } => !(me is Parsed),
            MenuDecryptState::Clearing { .. } => !(me is Cleared),
            MenuDecryptState::Saving => !(me is Saved || me is Failed),
            MenuDecryptState::Done => true,
        },
        ma is Ignore ==> mnext == ms,
        sa is Ignore <==> match ss {
            StartState::Launch => !(se is Launch),
            StartState::SingleRun => !(se is Recorded),
            StartState::NamedFile => !(se is Contents),
            StartState::Decided => true,
        },
        sa is Ignore ==> snext == ss,
{
}

} // verus!
