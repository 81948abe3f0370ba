use secure_encryptor::attempts::AttemptLog;
use secure_encryptor::crypto::{try_decrypt_data, EncryptedPayload};
use secure_encryptor::decrypt_flow::{
    decrypt_step, menu_decrypt_step, DecryptAction, DecryptEvent, DecryptState, MenuDecryptAction,
    MenuDecryptEvent, MenuDecryptState, MenuDecryptStop,
};
use secure_encryptor::encrypt_flow::{
    encrypt_step, seal_file, EncryptAction, EncryptEvent, EncryptState, EncryptStop,
};
use secure_encryptor::error::CryptoError;
use secure_encryptor::startup::{
    check_single_run, decrypt_report, menu_choice, option_label, pauses_after, run_recorded,
    start_step, MenuChoice, StartAction, StartEvent, StartState,
};

fn line(text: &str) -> EncryptEvent {
    EncryptEvent::Line(text.to_string())
}

fn typed(text: &str) -> DecryptEvent {
    DecryptEvent::Line(text.to_string())
}

fn sample() -> EncryptedPayload {
    EncryptedPayload {
        nonce: "AAECAwQFBgcICQoL".to_string(),
        ciphertext: "jDDWp12LiekIi03MQ6fQO14Th5lWMY6Y2MHy6DXZ".to_string(),
        salt: "c29tZXNhbHRzb21lc2FsdA".to_string(),
        signature: "pK4Oon/83WhaKzpMPqK+xONvupwkQisQULtALAkW7yQ=".to_string(),
        original_filename: "plan.txt".to_string(),
    }
}

#[test]
fn file_goes_through_encryption() {
    let (s, a) = encrypt_step(EncryptState::Path, line("/tmp/plan.txt"));
    assert!(matches!(a, EncryptAction::CheckExists(p) if p == "/tmp/plan.txt"));
    let (s, a) = encrypt_step(s, EncryptEvent::Exists(true));
    assert!(matches!(a, EncryptAction::AskPassword));
    let (s, a) = encrypt_step(s, line("12345678"));
    assert!(matches!(a, EncryptAction::AskConfirmation));
    let (s, a) = encrypt_step(s, line("12345678"));
    assert!(matches!(a, EncryptAction::ReadFile(p) if p == "/tmp/plan.txt"));
    let event = EncryptEvent::Contents {
        data: b"attack at dawn".to_vec(),
        file_name: Some("plan.txt".to_string()),
    };
    let (s, a) = encrypt_step(s, event);
    let payload = match a {
        EncryptAction::Serialize(payload) => payload,
        _ => panic!("no payload was made"),
    };
    assert_eq!(payload.original_filename, "plan.txt");
    assert_eq!(try_decrypt_data(&payload, "12345678").unwrap().unwrap(), b"attack at dawn");
    let (s, a) = encrypt_step(s, EncryptEvent::Json("{}".to_string()));
    assert!(matches!(a, EncryptAction::Store(bytes) if bytes == b"SECURE_ENCRYPTED_FILE_V1{}"));
    assert!(matches!(s, EncryptState::Storing));
    let (s, a) = encrypt_step(s, EncryptEvent::Stored);
    assert!(matches!(a, EncryptAction::Report));
    assert!(matches!(s, EncryptState::Done));
    let (s, a) = encrypt_step(s, line("more"));
    assert!(matches!(a, EncryptAction::Ignore));
    assert!(matches!(s, EncryptState::Done));
}

#[test]
fn encryption_stops_without_a_path_or_a_file() {
    let (s, a) = encrypt_step(EncryptState::Path, line(""));
    assert!(matches!(a, EncryptAction::Stop(EncryptStop::Cancelled)));
    assert!(matches!(s, EncryptState::Done));
    let state = EncryptState::Existence { path: "x".to_string() };
    let (_, a) = encrypt_step(state, EncryptEvent::Exists(false));
    assert!(matches!(a, EncryptAction::Stop(EncryptStop::FileMissing)));
}

fn disk_error() -> std::io::Error {
    std::io::Error::new(std::io::ErrorKind::Other, "disk on fire")
}

#[test]
fn encryption_fails_with_the_error_that_came() {
    let failure = |state: EncryptState, event: EncryptEvent| match encrypt_step(state, event) {
        (EncryptState::Done, EncryptAction::Fail(e)) => e,
        _ => panic!("no failure was reported"),
    };
    let state = EncryptState::Contents { password: "12345678".to_string() };
    let error = failure(state, EncryptEvent::ReadFailed(disk_error()));
    assert!(matches!(error, CryptoError::IoError(e) if e.to_string() == "disk on fire"));
    let json = serde_json::from_str::<u32>("x").unwrap_err();
    let error = failure(EncryptState::Serialization, EncryptEvent::JsonFailed(json));
    assert!(matches!(error, CryptoError::SerializationError(_)));
    let error = failure(EncryptState::Storing, EncryptEvent::StoreFailed(disk_error()));
    assert!(matches!(error, CryptoError::IoError(_)));
}

#[test]
fn menu_decryption_fails_with_the_error_that_came() {
    let image = MenuDecryptState::Image { password: "p".to_string() };
    for state in [image, MenuDecryptState::Saving] {
        let (s, a) = menu_decrypt_step(state, MenuDecryptEvent::Failed(disk_error()));
        assert!(matches!(a, MenuDecryptAction::Fail(CryptoError::IoError(_))));
        assert!(matches!(s, MenuDecryptState::Done));
    }
}

#[test]
fn passwords_are_measured_in_bytes() {
    let ask = |password: &str| {
        encrypt_step(EncryptState::Password { path: "x".to_string() }, line(password)).1
    };
    assert!(matches!(ask("1234567"), EncryptAction::Stop(EncryptStop::PasswordTooShort)));
    assert!(matches!(ask("12345678"), EncryptAction::AskConfirmation));
    assert!(matches!(ask("密码密"), EncryptAction::AskConfirmation));
    assert!(matches!(ask(&"p".repeat(32)), EncryptAction::AskConfirmation));
    assert!(matches!(ask(&"p".repeat(33)), EncryptAction::Stop(EncryptStop::PasswordTooLong)));
    assert!(matches!(ask(&"密".repeat(11)), EncryptAction::Stop(EncryptStop::PasswordTooLong)));
}

#[test]
fn passwords_must_agree() {
    let state =
        EncryptState::Confirmation { path: "x".to_string(), password: "12345678".to_string() };
    let (s, a) = encrypt_step(state, line("12345679"));
    assert!(matches!(a, EncryptAction::Stop(EncryptStop::PasswordMismatch)));
    assert!(matches!(s, EncryptState::Done));
}

#[test]
fn foreign_events_are_ignored() {
    let (s, a) = encrypt_step(EncryptState::Path, EncryptEvent::Exists(true));
    assert!(matches!(a, EncryptAction::Ignore));
    assert!(matches!(s, EncryptState::Path));
    let (s, a) = decrypt_step(DecryptState::Image, typed("x"));
    assert!(matches!(a, DecryptAction::Ignore));
    assert!(matches!(s, DecryptState::Image));
    let (s, a) = menu_decrypt_step(MenuDecryptState::Lock, MenuDecryptEvent::Saved);
    assert!(matches!(a, MenuDecryptAction::Ignore));
    assert!(matches!(s, MenuDecryptState::Lock));
    let (s, a) = start_step(StartState::Launch, StartEvent::Recorded(true));
    assert!(matches!(a, StartAction::Ignore));
    assert!(matches!(s, StartState::Launch));
}

#[test]
fn sealed_file_without_a_name_is_unknown() {
    let payload = seal_file(b"x", "12345678", None).unwrap();
    assert_eq!(payload.original_filename, "unknown");
}

#[test]
fn program_decrypts_its_payload() {
    let image = b"program SECURE_ENCRYPTED_FILE_V1{json}".to_vec();
    let (s, a) = decrypt_step(DecryptState::Image, DecryptEvent::Image(image));
    assert!(matches!(a, DecryptAction::Parse(json) if json == b"{json}"));
    let (s, a) = decrypt_step(s, DecryptEvent::Parsed(Some(sample())));
    assert!(matches!(a, DecryptAction::AskPassword));
    let (s, a) = decrypt_step(s, typed("correct_horse"));
    match a {
        DecryptAction::Save { plaintext, original_filename } => {
            assert_eq!(plaintext, b"attack at dawn");
            assert_eq!(original_filename, "plan.txt");
        }
        _ => panic!("nothing was decrypted"),
    }
    let (_, a) = decrypt_step(s, DecryptEvent::Saved("/tmp/plan.txt".to_string()));
    assert!(matches!(a, DecryptAction::Finish(Ok(m)) if m == "✓ 解密成功！文件已保存: /tmp/plan.txt"));
}

#[test]
fn program_reports_its_failures() {
    let failure = |state: DecryptState, event: DecryptEvent| match decrypt_step(state, event) {
        (DecryptState::Done, DecryptAction::Finish(Err(e))) => e,
        _ => panic!("no failure was reported"),
    };
    assert_eq!(
        failure(DecryptState::Image, DecryptEvent::Image(b"plain".to_vec())),
        "✗ 无效的加密文件"
    );
    assert_eq!(
        failure(DecryptState::Payload, DecryptEvent::Parsed(None)),
        "✗ 解密失败：无有效的加密数据"
    );
    assert_eq!(
        failure(DecryptState::Password { payload: sample() }, typed("wrong")),
        "✗ 密码错误！"
    );
    assert_eq!(
        failure(DecryptState::Saving, DecryptEvent::NoDirectory("gone".to_string())),
        "无法获取当前目录: gone"
    );
    assert_eq!(
        failure(DecryptState::Saving, DecryptEvent::WriteFailed("full".to_string())),
        "写入文件失败: full"
    );
}

#[test]
fn program_aborts_on_a_signed_payload_with_a_bad_nonce() {
    let mut payload = sample();
    payload.nonce = "AAAA".to_string();
    let (s, a) = decrypt_step(DecryptState::Password { payload }, typed("correct_horse"));
    assert!(matches!(a, DecryptAction::Abort));
    assert!(matches!(s, DecryptState::Done));
}

fn entry(locked_until: Option<u64>) -> Option<AttemptLog> {
    Some(AttemptLog { file_id: "id".to_string(), attempts: 3, locked_until })
}

#[test]
fn menu_decryption_asks_unless_locked() {
    let open = |log: Option<AttemptLog>, now: u64| {
        menu_decrypt_step(MenuDecryptState::Lock, MenuDecryptEvent::Log { log, now }).1
    };
    assert!(matches!(open(None, 5), MenuDecryptAction::AskPassword));
    assert!(matches!(open(entry(None), 5), MenuDecryptAction::AskPassword));
    assert!(matches!(open(entry(Some(5)), 5), MenuDecryptAction::AskPassword));
    assert!(matches!(
        open(entry(Some(65)), 5),
        MenuDecryptAction::Stop(MenuDecryptStop::LockedFor(60))
    ));
}

#[test]
fn menu_decryption_counts_attempts() {
    let record = |recorded: Result<u32, CryptoError>| {
        let state = MenuDecryptState::Attempt { password: "p".to_string() };
        menu_decrypt_step(state, MenuDecryptEvent::Recorded(recorded)).1
    };
    assert!(matches!(record(Ok(1)), MenuDecryptAction::ReadImage { remaining: None }));
    assert!(matches!(record(Ok(2)), MenuDecryptAction::ReadImage { remaining: Some(1) }));
    assert!(matches!(record(Ok(3)), MenuDecryptAction::ReadImage { remaining: Some(0) }));
    assert!(matches!(
        record(Err(CryptoError::MaxAttemptsExceeded)),
        MenuDecryptAction::Stop(MenuDecryptStop::Locked)
    ));
    assert!(matches!(
        record(Err(CryptoError::InvalidPassword)),
        MenuDecryptAction::Fail(CryptoError::InvalidPassword)
    ));
}

#[test]
fn menu_decryption_goes_through() {
    let (s, a) = menu_decrypt_step(
        MenuDecryptState::Password,
        MenuDecryptEvent::Line("correct_horse".to_string()),
    );
    assert!(matches!(a, MenuDecryptAction::RecordAttempt));
    let (s, _) = menu_decrypt_step(s, MenuDecryptEvent::Recorded(Ok(1)));
    let image = b"SECURE_ENCRYPTED_FILE_V1[]".to_vec();
    let (s, a) = menu_decrypt_step(s, MenuDecryptEvent::Image(image));
    assert!(matches!(a, MenuDecryptAction::Parse(json) if json == b"[]"));
    let (s, a) = menu_decrypt_step(s, MenuDecryptEvent::Parsed(Some(sample())));
    assert!(matches!(a, MenuDecryptAction::ClearLog));
    let (s, a) = menu_decrypt_step(s, MenuDecryptEvent::Cleared);
    assert!(matches!(
        a,
        MenuDecryptAction::Save { plaintext, original_filename }
            if plaintext == b"attack at dawn" && original_filename == "plan.txt"
    ));
    let (s, a) = menu_decrypt_step(s, MenuDecryptEvent::Saved);
    assert!(matches!(a, MenuDecryptAction::Cleanup));
    assert!(matches!(s, MenuDecryptState::Done));
}

#[test]
fn menu_decryption_stops_on_bad_payloads() {
    let state = MenuDecryptState::Image { password: "p".to_string() };
    let (_, a) = menu_decrypt_step(state, MenuDecryptEvent::Image(b"plain".to_vec()));
    assert!(matches!(a, MenuDecryptAction::Stop(MenuDecryptStop::NotEncrypted)));
    let state = || MenuDecryptState::Payload { password: "wrong".to_string() };
    let (_, a) = menu_decrypt_step(state(), MenuDecryptEvent::Parsed(None));
    assert!(matches!(a, MenuDecryptAction::Stop(MenuDecryptStop::NoPayload)));
    let (_, a) = menu_decrypt_step(state(), MenuDecryptEvent::Parsed(Some(sample())));
    assert!(matches!(a, MenuDecryptAction::Stop(MenuDecryptStop::WrongPassword)));
}

fn launch(image: &[u8], args: &[&str]) -> (StartState, StartAction) {
    let args = args.iter().map(|a| a.to_string()).collect();
    start_step(StartState::Launch, StartEvent::Launch { image: image.to_vec(), args })
}

#[test]
fn start_is_decided_by_image_and_arguments() {
    let marked = b"xSECURE_ENCRYPTED_FILE_V1x";
    assert!(matches!(launch(marked, &["p", "--decrypt"]).1, StartAction::RecordRun));
    assert!(matches!(launch(b"x", &["p"]).1, StartAction::Encrypt));
    assert!(matches!(launch(b"x", &[]).1, StartAction::Encrypt));
    assert!(matches!(
        launch(b"x", &["p", "--decrypt"]).1,
        StartAction::Decrypt { remove_program: false }
    ));
    let (s, a) = launch(b"x", &["p", "file.exe", "--decrypt"]);
    assert!(matches!(a, StartAction::ReadNamedFile(p) if p == "file.exe"));
    let (_, a) = start_step(s, StartEvent::Contents(Some(marked.to_vec())));
    assert!(matches!(a, StartAction::Decrypt { remove_program: false }));
    let (_, a) = start_step(StartState::NamedFile, StartEvent::Contents(None));
    assert!(matches!(a, StartAction::RefuseNamedFile));
    let (_, a) = start_step(StartState::NamedFile, StartEvent::Contents(Some(b"x".to_vec())));
    assert!(matches!(a, StartAction::RefuseNamedFile));
}

#[test]
fn encrypted_program_runs_once() {
    let (_, a) = start_step(StartState::SingleRun, StartEvent::Recorded(true));
    assert!(matches!(a, StartAction::Decrypt { remove_program: true }));
    let (_, a) = start_step(StartState::SingleRun, StartEvent::Recorded(false));
    assert!(matches!(a, StartAction::RefuseSecondRun));
    assert!(check_single_run(true, false));
    assert!(!check_single_run(true, true));
    assert!(!check_single_run(false, false));
    assert!(run_recorded(true, true));
    assert!(!run_recorded(true, false));
    assert!(!run_recorded(false, true));
}

#[test]
fn reports_are_indented() {
    let report = decrypt_report(&Ok("done".to_string())).unwrap();
    assert!(report.success);
    assert_eq!(report.line, "  done");
    let report = decrypt_report(&Err("bad".to_string())).unwrap();
    assert!(!report.success);
    assert_eq!(report.line, "  bad");
    assert!(decrypt_report(&Ok(String::new())).is_none());
    assert_eq!(decrypt_report(&Err(String::new())).unwrap().line, "  ");
}

#[test]
fn menu_choices() {
    assert!(matches!(menu_choice("1"), MenuChoice::Encrypt));
    assert!(matches!(menu_choice("2"), MenuChoice::About));
    for quit in ["3", "q", "Q"] {
        assert!(matches!(menu_choice(quit), MenuChoice::Quit));
        assert!(!pauses_after(quit));
    }
    for other in ["", "4", "qq", "1 "] {
        assert!(matches!(menu_choice(other), MenuChoice::Invalid));
        assert!(pauses_after(other));
    }
    assert!(pauses_after("1"));
    assert_eq!(option_label(0), "[1]");
    assert_eq!(option_label(9), "[10]");
}

#[test]
fn encrypted_file_is_recovered_by_both_courses() {
    let state = EncryptState::Contents { password: "12345678".to_string() };
    let event = EncryptEvent::Contents { data: b"secret".to_vec(), file_name: None };
    let payload = match encrypt_step(state, event) {
        (EncryptState::Serialization, EncryptAction::Serialize(payload)) => payload,
        _ => panic!("no payload was made"),
    };
    let state = DecryptState::Password { payload: payload.clone() };
    assert!(matches!(
        decrypt_step(state, typed("12345678")).1,
        DecryptAction::Save { plaintext, original_filename }
            if plaintext == b"secret" && original_filename == "unknown"
    ));
    let state = MenuDecryptState::Payload { password: "12345678".to_string() };
    let (state, a) = menu_decrypt_step(state, MenuDecryptEvent::Parsed(Some(payload)));
    assert!(matches!(a, MenuDecryptAction::ClearLog));
    assert!(matches!(
        menu_decrypt_step(state, MenuDecryptEvent::Cleared).1,
        MenuDecryptAction::Save { plaintext, original_filename }
            if plaintext == b"secret" && original_filename == "unknown"
    ));
}

#[test]
fn file_comes_back_from_its_program() {
    let state = EncryptState::Contents { password: "12345678".to_string() };
    let event =
        EncryptEvent::Contents { data: b"secret".to_vec(), file_name: Some("n.txt".to_string()) };
    let (s, a) = encrypt_step(state, event);
    let payload = match a {
        EncryptAction::Serialize(payload) => payload,
        _ => panic!("no payload was made"),
    };
    let json = format!("{{\"salt\":\"{}\"}}", payload.salt);
    let (_, a) = encrypt_step(s, EncryptEvent::Json(json.clone()));
    let mut image = b"program".to_vec();
    match a {
        EncryptAction::Store(bytes) => image.extend(bytes),
        _ => panic!("nothing was stored"),
    }
    let (s, a) = decrypt_step(DecryptState::Image, DecryptEvent::Image(image));
    assert!(matches!(a, DecryptAction::Parse(bytes) if bytes == json.as_bytes()));
    let (s, a) = decrypt_step(s, DecryptEvent::Parsed(Some(payload)));
    assert!(matches!(a, DecryptAction::AskPassword));
    let (s, a) = decrypt_step(s, typed("12345678"));
    assert!(matches!(
        a,
        DecryptAction::Save { plaintext, original_filename }
            if plaintext == b"secret" && original_filename == "n.txt"
    ));
    let (s, a) = decrypt_step(s, DecryptEvent::Saved("/tmp/n.txt".to_string()));
    assert!(matches!(a, DecryptAction::Finish(Ok(m)) if m == "✓ 解密成功！文件已保存: /tmp/n.txt"));
    assert!(matches!(s, DecryptState::Done));
}
