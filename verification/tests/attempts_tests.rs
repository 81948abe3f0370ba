use secure_encryptor::attempts::{
    attempt_outcome, check_and_record_attempt, clear_attempt_log, cleared_log, is_countable,
    is_recordable, lock_remaining, read_attempt_log, record_attempt, remaining_attempts,
    stored_entry, write_attempt_log, AttemptLog, AttemptStep, LogFile, ATTEMPT_LOG_FILE,
    LOCK_SECONDS, MAX_ATTEMPTS,
};
use secure_encryptor::error::CryptoError;

fn log(file_id: &str, attempts: u32, locked_until: Option<u64>) -> AttemptLog {
    AttemptLog { file_id: file_id.to_string(), attempts, locked_until }
}

fn plain(logs: &[AttemptLog]) -> Vec<(String, u32, Option<u64>)> {
    logs.iter().map(|l| (l.file_id.clone(), l.attempts, l.locked_until)).collect()
}

#[test]
fn third_attempt_locks_for_five_minutes() {
    let mut logs = Vec::new();
    assert_eq!(check_and_record_attempt(&mut logs, "f", 1000).unwrap(), 1);
    assert_eq!(check_and_record_attempt(&mut logs, "f", 1001).unwrap(), 2);
    assert_eq!(plain(&logs), vec![("f".to_string(), 2, None)]);
    assert_eq!(check_and_record_attempt(&mut logs, "f", 1002).unwrap(), 3);
    assert_eq!(plain(&logs), vec![("f".to_string(), 3, Some(1302))]);
    assert!(matches!(
        check_and_record_attempt(&mut logs, "f", 1301),
        Err(CryptoError::MaxAttemptsExceeded)
    ));
    assert_eq!(plain(&logs), vec![("f".to_string(), 3, Some(1302))]);
    assert_eq!(check_and_record_attempt(&mut logs, "f", 1302).unwrap(), 1);
    assert_eq!(plain(&logs), vec![("f".to_string(), 1, None)]);
}

#[test]
fn files_are_counted_apart() {
    let mut logs = vec![log("a", 2, None)];
    assert_eq!(check_and_record_attempt(&mut logs, "b", 5).unwrap(), 1);
    assert_eq!(check_and_record_attempt(&mut logs, "a", 5).unwrap(), 3);
    assert_eq!(plain(&logs), vec![("a".to_string(), 3, Some(305)), ("b".to_string(), 1, None)]);
}

#[test]
fn attempts_keep_the_whole_log_within_the_limit() {
    let mut logs = vec![log("a", 1, None), log("b", 3, Some(50)), log("c", 2, None)];
    for (file_id, now) in [("c", 10), ("b", 20), ("a", 30), ("d", 40), ("b", 50), ("c", 400)] {
        let others = |logs: &[AttemptLog]| {
            plain(logs).into_iter().filter(|l| l.0 != file_id).collect::<Vec<_>>()
        };
        let before = others(&logs);
        match check_and_record_attempt(&mut logs, file_id, now) {
            Ok(n) => assert!(1 <= n && n <= MAX_ATTEMPTS),
            Err(e) => assert!(matches!(e, CryptoError::MaxAttemptsExceeded)),
        }
        assert_eq!(others(&logs), before);
        for l in &logs {
            assert!(1 <= l.attempts && l.attempts <= MAX_ATTEMPTS);
            assert_eq!(l.locked_until.is_some(), l.attempts == MAX_ATTEMPTS);
        }
    }
}

#[test]
fn reading_writing_and_clearing() {
    let mut logs = vec![log("a", 1, None), log("b", 2, None), log("a", 9, None)];
    assert_eq!(read_attempt_log(&logs, "a").unwrap().attempts, 1);
    assert!(read_attempt_log(&logs, "c").is_none());
    write_attempt_log(&mut logs, &log("b", 7, Some(4)));
    write_attempt_log(&mut logs, &log("c", 5, None));
    assert_eq!(
        plain(&logs),
        vec![
            ("a".to_string(), 1, None),
            ("b".to_string(), 7, Some(4)),
            ("a".to_string(), 9, None),
            ("c".to_string(), 5, None)
        ]
    );
    clear_attempt_log(&mut logs, "a");
    assert_eq!(plain(&logs), vec![("b".to_string(), 7, Some(4)), ("c".to_string(), 5, None)]);
    clear_attempt_log(&mut logs, "zzz");
    assert_eq!(logs.len(), 2);
}

#[test]
fn cleared_file_starts_again() {
    let mut logs = vec![log("a", 2, None)];
    clear_attempt_log(&mut logs, "a");
    assert_eq!(check_and_record_attempt(&mut logs, "a", 9).unwrap(), 1);
}

#[test]
fn lock_is_measured_in_seconds() {
    assert_eq!(lock_remaining(&None, 10), None);
    assert_eq!(lock_remaining(&Some(log("a", 2, None)), 10), None);
    assert_eq!(lock_remaining(&Some(log("a", 3, Some(310))), 10), Some(300));
    assert_eq!(lock_remaining(&Some(log("a", 3, Some(310))), 309), Some(1));
    assert_eq!(lock_remaining(&Some(log("a", 3, Some(310))), 310), None);
}

#[test]
fn remaining_attempts_are_told_from_the_second_on() {
    assert_eq!(remaining_attempts(0), None);
    assert_eq!(remaining_attempts(1), None);
    assert_eq!(remaining_attempts(2), Some(1));
    assert_eq!(remaining_attempts(3), Some(0));
}

#[test]
fn counting_has_limits() {
    assert!(is_countable(&Vec::new(), "a", u64::MAX));
    assert!(!is_countable(&vec![log("a", u32::MAX, None)], "a", 0));
    assert!(is_countable(&vec![log("a", u32::MAX, Some(7))], "a", 7));
    assert!(is_countable(&vec![log("a", u32::MAX, Some(7))], "a", 6));
    assert!(!is_countable(&vec![log("a", 2, None)], "a", u64::MAX - 299));
    assert!(is_countable(&vec![log("a", 2, None)], "a", u64::MAX - 300));
}

fn unreadable() -> LogFile {
    LogFile::Unreadable(std::io::Error::new(std::io::ErrorKind::Other, "no luck"))
}

#[test]
fn attempt_is_recorded_in_what_is_found() {
    for file in [LogFile::Missing, LogFile::Read(None), LogFile::Read(Some(Vec::new()))] {
        assert!(is_recordable(&file, "a", u64::MAX));
        match record_attempt(file, "a", 7) {
            AttemptStep::Store { logs, attempts } => {
                assert_eq!(attempts, 1);
                assert_eq!(plain(&logs), vec![("a".to_string(), 1, None)]);
            }
            AttemptStep::Refuse(_) => panic!("the first attempt was refused"),
        }
    }
    match record_attempt(LogFile::Read(Some(vec![log("a", 2, None)])), "a", 7) {
        AttemptStep::Store { logs, attempts } => {
            assert_eq!(attempts, 3);
            assert_eq!(plain(&logs), vec![("a".to_string(), 3, Some(307))]);
            assert_eq!(stored_entry(&LogFile::Read(Some(logs)), "a").unwrap().attempts, 3);
        }
        AttemptStep::Refuse(_) => panic!("the third attempt was refused"),
    }
    assert!(!is_recordable(&LogFile::Read(Some(vec![log("a", u32::MAX, None)])), "a", 7));
}

#[test]
fn attempt_is_refused_where_it_cannot_be_recorded() {
    assert!(is_recordable(&unreadable(), "a", 7));
    assert!(matches!(
        record_attempt(unreadable(), "a", 7),
        AttemptStep::Refuse(CryptoError::IoError(e)) if e.to_string() == "no luck"
    ));
    assert!(matches!(
        record_attempt(LogFile::Read(Some(vec![log("a", 3, Some(8))])), "a", 7),
        AttemptStep::Refuse(CryptoError::MaxAttemptsExceeded)
    ));
    assert_eq!(attempt_outcome(2, Ok(())).unwrap(), 2);
    assert!(matches!(
        attempt_outcome(2, Err(CryptoError::InvalidPassword)),
        Err(CryptoError::InvalidPassword)
    ));
}

#[test]
fn entries_are_found_only_in_a_log() {
    assert!(stored_entry(&LogFile::Missing, "a").is_none());
    assert!(stored_entry(&unreadable(), "a").is_none());
    assert!(stored_entry(&LogFile::Read(None), "a").is_none());
    assert!(cleared_log(LogFile::Missing, "a").is_none());
    assert!(cleared_log(unreadable(), "a").is_none());
    assert!(cleared_log(LogFile::Read(None), "a").unwrap().is_empty());
    let logs = vec![log("a", 1, None), log("b", 2, None)];
    assert_eq!(
        plain(&cleared_log(LogFile::Read(Some(logs)), "a").unwrap()),
        vec![("b".to_string(), 2, None)]
    );
}

#[test]
fn constants_are_as_documented() {
    assert_eq!(MAX_ATTEMPTS, 3);
    assert_eq!(LOCK_SECONDS, 300);
    assert_eq!(ATTEMPT_LOG_FILE, ".attempt_log");
}
