use secure_encryptor::cleanup::{cleanup_script, escape_powershell_single_quoted};
use secure_encryptor::error::CryptoError;
use secure_encryptor::names::{
    numbered_file_name, original_filename, run_marker_path, sfx_file_name, split_name, SaveAction,
    SaveTarget,
};
use secure_encryptor::text::{clean_input, decimal_text, get_file_id, hex_text, same_text};

#[test]
fn numbers_are_written_in_decimal() {
    assert_eq!(decimal_text(0), "0");
    assert_eq!(decimal_text(9), "9");
    assert_eq!(decimal_text(10), "10");
    assert_eq!(decimal_text(1905), "1905");
    assert_eq!(decimal_text(u64::MAX), "18446744073709551615");
}

#[test]
fn bytes_are_written_in_hexadecimal() {
    assert_eq!(hex_text(&[]), "");
    assert_eq!(hex_text(&[0x00, 0x9a, 0xbc, 0xff]), "009abcff");
}

#[test]
fn file_id_is_the_start_of_the_digest() {
    assert_eq!(get_file_id(None, "abc"), "ba7816bf8f01cfea");
    assert_eq!(get_file_id(Some("metadata"), "/tmp/x"), "c6b7d8e217748726");
}

#[test]
fn input_is_trimmed() {
    assert_eq!(clean_input("  a b \r\n"), "a b");
    assert_eq!(clean_input("\u{3000}密 码\t\n"), "密 码");
    assert_eq!(clean_input(" \n"), "");
    assert_eq!(clean_input(""), "");
    assert_eq!(clean_input(&clean_input(" x ")), "x");
}

#[test]
fn exactly_white_space_is_trimmed() {
    for c in '\0'..=char::MAX {
        let white = matches!(
            c,
            '\u{9}'..='\u{d}'
                | '\u{20}'
                | '\u{85}'
                | '\u{a0}'
                | '\u{1680}'
                | '\u{2000}'..='\u{200a}'
                | '\u{2028}'
                | '\u{2029}'
                | '\u{202f}'
                | '\u{205f}'
                | '\u{3000}'
        );
        assert_eq!(clean_input(&c.to_string()).is_empty(), white);
    }
}

#[test]
fn texts_are_compared() {
    assert!(same_text("q", "q"));
    assert!(!same_text("q", "Q"));
}

#[test]
fn names_are_split_at_the_last_dot() {
    let parts = |name: &str| split_name(name);
    assert_eq!(parts("report.txt"), ("report".to_string(), "txt".to_string()));
    assert_eq!(parts("a.tar.gz"), ("a.tar".to_string(), "gz".to_string()));
    assert_eq!(parts(".bashrc"), (".bashrc".to_string(), String::new()));
    assert_eq!(parts(".config.json"), (".config".to_string(), "json".to_string()));
    assert_eq!(parts("README"), ("README".to_string(), String::new()));
    assert_eq!(parts("odd."), ("odd".to_string(), String::new()));
    assert_eq!(parts("文.件"), ("文".to_string(), "件".to_string()));
}

#[test]
fn names_split_as_paths_do() {
    for name in ["report.txt", "a.tar.gz", ".bashrc", ".config.json", "README", "odd.", "a..b"] {
        let path = std::path::Path::new(name);
        let (stem, extension) = split_name(name);
        assert_eq!(stem, path.file_stem().unwrap().to_str().unwrap());
        assert_eq!(extension, path.extension().map(|e| e.to_str().unwrap()).unwrap_or(""));
        assert_eq!(sfx_file_name(name), path.with_extension("sfx.exe").to_str().unwrap());
    }
}

#[test]
fn sfx_replaces_the_extension() {
    assert_eq!(sfx_file_name("..x"), "..sfx.exe");
    assert_eq!(sfx_file_name("report.txt"), "report.sfx.exe");
    assert_eq!(sfx_file_name("README"), "README.sfx.exe");
}

#[test]
fn names_are_numbered_before_the_extension() {
    assert_eq!(numbered_file_name(&Some("report.txt".to_string()), 1), "report_1.txt");
    assert_eq!(numbered_file_name(&Some("README".to_string()), 12), "README_12");
    assert_eq!(numbered_file_name(&Some("odd.".to_string()), 2), "odd_2");
    assert_eq!(numbered_file_name(&None, 3), "file_3");
}

#[test]
fn search_for_a_free_name() {
    let mut target = SaveTarget::new(Some("report.txt".to_string()));
    assert!(target.has_next());
    assert!(matches!(target.answer(true), SaveAction::Probe(n) if n == "report_1.txt"));
    assert!(matches!(target.answer(true), SaveAction::Probe(n) if n == "report_2.txt"));
    assert!(matches!(target.answer(false), SaveAction::Write));
    let mut free = SaveTarget::new(None);
    assert!(matches!(free.answer(false), SaveAction::Write));
    assert!(!SaveTarget { file_name: None, counter: i32::MAX as u32 }.has_next());
}

#[test]
fn file_without_a_name_is_remembered_as_unknown() {
    assert_eq!(original_filename(Some("a.txt".to_string())), "a.txt");
    assert_eq!(original_filename(None), "unknown");
}

#[test]
fn run_marker_is_a_hidden_file_beside_the_program() {
    assert_eq!(
        run_marker_path(Some("/opt"), Some("report.sfx")),
        Some(("/opt", ".report.sfx.run".to_string()))
    );
    assert_eq!(run_marker_path(Some("/opt"), None), Some(("/opt", ".secure_exe.run".to_string())));
    assert_ne!(run_marker_path(Some("/opt"), Some("a")), run_marker_path(Some("/opt"), Some("b")));
    assert_eq!(run_marker_path(None::<&str>, Some("x")), None);
}

#[test]
fn quotes_are_doubled() {
    assert_eq!(escape_powershell_single_quoted("it's"), "it''s");
    assert_eq!(escape_powershell_single_quoted("''"), "''''");
    assert_eq!(escape_powershell_single_quoted("C:\\x"), "C:\\x");
    assert_eq!(escape_powershell_single_quoted(""), "");
}

#[test]
fn cleanup_script_is_exact() {
    let expected = "$exe='C:\\o''x.exe';$marker='C:\\.o.run';for($i=0;$i -lt 200;$i++){try{Remove-Item -LiteralPath $exe -Force -ErrorAction Stop}catch{};if(-not (Test-Path -LiteralPath $exe)){break};Start-Sleep -Milliseconds 100};if($marker -and (Test-Path -LiteralPath $marker)){try{Remove-Item -LiteralPath $marker -Force -ErrorAction SilentlyContinue}catch{}}";
    assert_eq!(cleanup_script("C:\\o'x.exe", Some("C:\\.o.run")), expected);
    assert!(cleanup_script("a", None).starts_with("$exe='a';$marker='';for("));
}

#[test]
fn errors_are_worded() {
    let message = |e: CryptoError| e.message();
    assert_eq!(message(CryptoError::EncryptionFailed("x".to_string())), "Encryption failed: x");
    assert_eq!(message(CryptoError::DecryptionFailed("x".to_string())), "Decryption failed: x");
    assert_eq!(
        message(CryptoError::KeyDerivationFailed("x".to_string())),
        "Key derivation failed: x"
    );
    assert_eq!(
        message(CryptoError::SignatureVerificationFailed),
        "Signature verification failed"
    );
    assert_eq!(message(CryptoError::InvalidPassword), "Invalid password");
    assert_eq!(message(CryptoError::MaxAttemptsExceeded), "Max attempts exceeded");
}

#[test]
fn outside_errors_are_kept_and_worded() {
    let io = CryptoError::from(std::io::Error::new(std::io::ErrorKind::Other, "disk on fire"));
    assert!(matches!(io, CryptoError::IoError(_)));
    assert_eq!(io.message(), "IO error: disk on fire");
    assert_eq!(io.message_with("gone"), "IO error: gone");
    let json = serde_json::from_str::<u32>("x").unwrap_err();
    let text = json.to_string();
    let json = CryptoError::from(json);
    assert!(matches!(json, CryptoError::SerializationError(_)));
    assert_eq!(json.message(), format!("Serialization error: {}", text));
}
