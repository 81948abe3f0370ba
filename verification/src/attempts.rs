//! The log of decryption attempts, which locks a file for a while after too many of
//! them.
use crate::error::{CryptoError, ErrorView};
use crate::laws::records;
use vstd::prelude::*;
use vstd::string::*;

verus! {

/// The number of attempts after which a file is locked.
pub const MAX_ATTEMPTS: u32 = 3;

/// How long a file stays locked, in seconds.
pub const LOCK_SECONDS: u64 = 300;

/// The name of the file that holds the log.
pub const ATTEMPT_LOG_FILE: &'static str = ".attempt_log";

/// What is recorded about the attempts on one file.
pub struct AttemptLog {
    /// The identifier of the file.
    pub file_id: String,
    /// How many attempts have been made since the log was last reset.
    pub attempts: u32,
    /// Until when, in seconds since the epoch, no attempt is allowed.
    pub locked_until: Option<u64>,
}

/// An `AttemptLog` with its text taken as a sequence of characters.
pub struct AttemptView {
    pub file_id: Seq<char>,
    pub attempts: u32,
    pub locked_until: Option<u64>,
}

impl View for AttemptLog {
    type V = AttemptView;

    open spec fn view(&self) -> AttemptView {
        AttemptView {
            file_id: self.file_id@,
            attempts: self.attempts,
            locked_until: self.locked_until,
        }
    }
}

impl Clone for AttemptLog {
    fn clone(&self) -> (log: AttemptLog)
        ensures
            log == *self,
    {
        AttemptLog {
            file_id: self.file_id.clone(),
            attempts: self.attempts,
            locked_until: self.locked_until,
        }
    }
}

/// The entries of a log by their views.
pub open spec fn entries(logs: Seq<AttemptLog>) -> Seq<AttemptView> {
    logs.map_values(|log: AttemptLog| log@)
}

/// The first entry for a file.
pub open spec fn entry(logs: Seq<AttemptView>, file_id: Seq<char>) -> Option<AttemptView>
    decreases logs.len(),
{
    if logs.len() == 0 {
        None
    } else if logs.first().file_id == file_id {
        Some(logs.first())
    } else {
        entry(logs.drop_first(), file_id)
    }
}

/// The log with `log` in place of the first entry for the same file, or behind all
/// entries where there is none.
pub open spec fn with_entry(logs: Seq<AttemptView>, log: AttemptView) -> Seq<AttemptView>
    decreases logs.len(),
{
    if logs.len() == 0 {
        seq![log]
    } else if logs.first().file_id == log.file_id {
        seq![log] + logs.drop_first()
    } else {
        seq![logs.first()] + with_entry(logs.drop_first(), log)
    }
}

/// The log without the entries for a file.
pub open spec fn without_entry(logs: Seq<AttemptView>, file_id: Seq<char>) -> Seq<AttemptView>
    decreases logs.len(),
{
    if logs.len() == 0 {
        logs
    } else if logs.first().file_id == file_id {
        without_entry(logs.drop_first(), file_id)
    } else {
        seq![logs.first()] + without_entry(logs.drop_first(), file_id)
    }
}

/// Whether a file is locked at `now`, given its entry.
pub open spec fn is_locked(log: Option<AttemptView>, now: u64) -> bool {
    &&& log is Some
    &&& log->0.locked_until is Some
    &&& now < log->0.locked_until->0
}

/// How many attempts count where no lock holds: those of the entry, none where it carries
/// a lock, which has then run out.
pub open spec fn counted_attempts(log: Option<AttemptView>) -> u32 {
    match log {
        Some(log) => if log.locked_until is Some {
            0
        } else {
            log.attempts
        },
        None => 0,
    }
}

/// Whether one more attempt can be counted and, where it locks the file, the end of the
/// lock be written.
pub open spec fn countable(log: Option<AttemptView>, now: u64) -> bool {
    &&& counted_attempts(log) < u32::MAX
    &&& counted_attempts(log) + 1 >= MAX_ATTEMPTS ==> now + LOCK_SECONDS <= u64::MAX
}

/// The entry after one more attempt at `now`.
pub open spec fn after_attempt(
    log: Option<AttemptView>,
    file_id: Seq<char>,
    now: u64,
) -> AttemptView {
    let attempts = (counted_attempts(log) + 1) as u32;
    AttemptView {
        file_id,
        attempts,
        locked_until: if attempts >= MAX_ATTEMPTS {
            Some((now + LOCK_SECONDS) as u64)
        } else {
            None
        },
    }
}

/// The log after one more attempt at `now` on a file: as it was where the file is locked.
pub open spec fn after_check(
    logs: Seq<AttemptView>,
    file_id: Seq<char>,
    now: u64,
) -> Seq<AttemptView> {
    let log = entry(logs, file_id);
    if is_locked(log, now) {
        logs
    } else {
        with_entry(logs, after_attempt(log, file_id, now))
    }
}

/// The entry for a file, if there is one.
pub fn read_attempt_log(logs: &Vec<AttemptLog>, file_id: &str) -> (log: Option<AttemptLog>)
    ensures
        match log {
            Some(log) => entry(entries(logs@), file_id@) == Some(log@),
            None => entry(entries(logs@), file_id@) is None,
        },
{
    let id = file_id.to_owned();
    let mut i: usize = 0;
    assert(entries(logs@).skip(0) =~= entries(logs@));
    while i < logs.len()
        invariant
            i <= logs@.len(),
            id@ == file_id@,
            entry(entries(logs@), file_id@) == entry(entries(logs@).skip(i as int), file_id@),
        decreases logs@.len() - i,
    {
        assert(entries(logs@).skip(i as int).first() == logs@[i as int]@);
        if logs[i].file_id == id {
            return Some(logs[i].clone());
        }
        assert(entries(logs@).skip(i as int).drop_first() =~= entries(logs@).skip(i + 1));
        i = i + 1;
    }
    None
}

/// Puts an entry into the log, in place of the first entry for the same file.
pub fn write_attempt_log(logs: &mut Vec<AttemptLog>, log: &AttemptLog)
    ensures
        entries(final(logs)@) == with_entry(entries(old(logs)@), log@),
{
    let ghost before = entries(logs@);
    let mut i: usize = 0;
    assert(before.take(0) + with_entry(before.skip(0), log@) =~= with_entry(before, log@)) by {
        assert(before.skip(0) =~= before);
    }
    while i < logs.len()
        invariant
            i <= logs@.len(),
            logs@ == old(logs)@,
            before == entries(logs@),
            with_entry(before, log@) == before.take(i as int) + with_entry(
                before.skip(i as int),
                log@,
            ),
        decreases logs@.len() - i,
    {
        assert(before.skip(i as int).first() == logs@[i as int]@);
        assert(before.skip(i as int).drop_first() =~= before.skip(i + 1));
        if logs[i].file_id == log.file_id {
            logs.set(i, log.clone());
            assert(entries(logs@) =~= before.take(i as int) + (seq![log@] + before.skip(i + 1)));
            return;
        }
        assert(before.take(i as int) + (seq![before[i as int]] + with_entry(
            before.skip(i + 1),
            log@,
        )) =~= before.take(i + 1) + with_entry(before.skip(i + 1), log@));
        i = i + 1;
    }
    assert(before.skip(i as int).len() == 0);
    logs.push(log.clone());
    assert(entries(logs@) =~= before.take(i as int) + seq![log@]);
}

/// Removes every entry for a file.
pub fn clear_attempt_log(logs: &mut Vec<AttemptLog>, file_id: &str)
    ensures
        entries(final(logs)@) == without_entry(entries(old(logs)@), file_id@),
{
    let id = file_id.to_owned();
    let ghost before = entries(logs@);
    let mut kept: Vec<AttemptLog> = Vec::new();
    let mut i: usize = 0;
    assert(before.skip(0) =~= before);
    assert(entries(kept@) + without_entry(before, file_id@) =~= without_entry(before, file_id@));
    while i < logs.len()
        invariant
            i <= logs@.len(),
            id@ == file_id@,
            before == entries(logs@),
            without_entry(before, file_id@) == entries(kept@) + without_entry(
                before.skip(i as int),
                file_id@,
            ),
        decreases logs@.len() - i,
    {
        let ghost rest = without_entry(before.skip(i + 1), file_id@);
        let ghost kept_before = entries(kept@);
        assert(before.skip(i as int).first() == logs@[i as int]@);
        assert(before.skip(i as int).drop_first() =~= before.skip(i + 1));
        if logs[i].file_id != id {
            kept.push(logs[i].clone());
            assert(entries(kept@) =~= kept_before.push(before[i as int]));
            assert(kept_before + (seq![before[i as int]] + rest) =~= entries(kept@) + rest);
        }
        i = i + 1;
    }
    assert(before.skip(i as int).len() == 0);
    assert(entries(kept@) + before.skip(i as int) =~= entries(kept@));
    *logs = kept;
}

/// How many seconds a file stays locked, if it is locked at `now`.
pub fn lock_remaining(log: &Option<AttemptLog>, now: u64) -> (remaining: Option<u64>)
    ensures
        match remaining {
            Some(seconds) => {
                &&& log is Some
                &&& is_locked(Some(log->0@), now)
                &&& seconds == log->0.locked_until->0 - now
            },
            None => log is None || !is_locked(Some(log->0@), now),
        },
{
    match log {
        Some(log) => match log.locked_until {
            Some(until) => if now < until {
                Some(until - now)
            } else {
                None
            },
            None => None,
        },
        None => None,
    }
}

/// Whether one more attempt on a file can be counted at `now`.
pub fn is_countable(logs: &Vec<AttemptLog>, file_id: &str, now: u64) -> (fits: bool)
    ensures
        fits == (is_locked(entry(entries(logs@), file_id@), now) || countable(
            entry(entries(logs@), file_id@),
            now,
        )),
{
    let log = read_attempt_log(logs, file_id);
    let attempts: u32 = match &log {
        Some(log) => match log.locked_until {
            Some(until) => {
                if now < until {
                    return true;
                }
                0
            },
            None => log.attempts,
        },
        None => 0,
    };
    attempts < u32::MAX && (attempts + 1 < MAX_ATTEMPTS || now <= u64::MAX - LOCK_SECONDS)
}

/// Counts an attempt on a file at `now`, unless the file is locked. The number of
/// attempts is returned; with the last one allowed the file is locked. The entries of
/// other files stay as they are and where they are, and a log that is within the limit
/// stays so.
pub fn check_and_record_attempt(
    logs: &mut Vec<AttemptLog>,
    file_id: &str,
    current_time: u64,
) -> (attempts: Result<u32, CryptoError>)
    requires
        is_locked(entry(entries(old(logs)@), file_id@), current_time) || countable(
            entry(entries(old(logs)@), file_id@),
            current_time,
        ),
    ensures
        ({
            let before = entries(old(logs)@);
            let log = entry(before, file_id@);
            match attempts {
                Err(e) => {
                    &&& is_locked(log, current_time)
                    &&& e@ == ErrorView::MaxAttemptsExceeded
                    &&& *final(logs) == *old(logs)
                },
                Ok(n) => {
                    &&& !is_locked(log, current_time)
                    &&& n == after_attempt(log, file_id@, current_time).attempts
                    &&& entries(final(logs)@) == with_entry(
                        before,
                        after_attempt(log, file_id@, current_time),
                    )
                },
            }
        }),
        entries(final(logs)@) == after_check(entries(old(logs)@), file_id@, current_time),
        without_entry(entries(final(logs)@), file_id@) == without_entry(
            entries(old(logs)@),
            file_id@,
        ),
        forall|other: Seq<char>|
            other != file_id@ ==> #[trigger] entry(entries(final(logs)@), other) == entry(
                entries(old(logs)@),
                other,
            ),
        log_within_limit(entries(old(logs)@)) ==> log_within_limit(entries(final(logs)@)) && (
        attempts is Ok ==> 1 <= attempts->Ok_0 <= MAX_ATTEMPTS),
{
    proof {
        let before = entries(logs@);
        lemma_entry_is_for_file(before, file_id@);
        law_attempt_leaves_other_entries(before, file_id@, current_time);
        assert forall|other: Seq<char>| other != file_id@ implies #[trigger] entry(
            after_check(before, file_id@, current_time),
            other,
        ) == entry(before, other) by {
            law_attempt_leaves_other_files(before, file_id@, other, current_time);
        }
        if log_within_limit(before) {
            law_log_stays_within_limit(before, file_id@, current_time);
        }
    }
    let mut log = match read_attempt_log(logs, file_id) {
        Some(log) => log,
        None => AttemptLog { file_id: file_id.to_owned(), attempts: 0, locked_until: None },
    };
    match log.locked_until {
        Some(until) => {
            if current_time < until {
                return Err(CryptoError::MaxAttemptsExceeded);
            }
            log.attempts = 0;
            log.locked_until = None;
        },
        None => {},
    }
    log.attempts = log.attempts + 1;
    if log.attempts >= MAX_ATTEMPTS {
        log.locked_until = Some(current_time + LOCK_SECONDS);
    }
    write_attempt_log(logs, &log);
    Ok(log.attempts)
}

/// What is found where the log is kept.
pub enum LogFile {
    /// There is no file.
    Missing,
    /// The file could not be read.
    Unreadable(std::io::Error),
    /// The entries of the file, or nothing where its text is no log.
    Read(Option<Vec<AttemptLog>>),
}

/// The entries that are found: none unless the file could be read and its text is a log.
pub open spec fn file_entries(file: LogFile) -> Seq<AttemptView> {
    match file {
        LogFile::Read(Some(logs)) => entries(logs@),
        _ => Seq::empty(),
    }
}

/// The entry that is found for a file, if there is one.
pub fn stored_entry(file: &LogFile, file_id: &str) -> (log: Option<AttemptLog>)
    ensures
        match log {
            Some(log) => entry(file_entries(*file), file_id@) == Some(log@),
            None => entry(file_entries(*file), file_id@) is None,
        },
{
    match file {
        LogFile::Read(Some(logs)) => read_attempt_log(logs, file_id),
        _ => None,
    }
}

/// Whether one more attempt on a file can be counted at `now`, given what is found.
pub fn is_recordable(file: &LogFile, file_id: &str, now: u64) -> (fits: bool)
    ensures
        fits == (is_locked(entry(file_entries(*file), file_id@), now) || countable(
            entry(file_entries(*file), file_id@),
            now,
        )),
{
    match file {
        LogFile::Read(Some(logs)) => is_countable(logs, file_id, now),
        _ => true,
    }
}

/// What is to be done about an attempt.
pub enum AttemptStep {
    /// Write these entries; then so many attempts have been made.
    Store { logs: Vec<AttemptLog>, attempts: u32 },
    /// End with an error, and write nothing.
    Refuse(CryptoError),
}

/// Decides what is done about an attempt on a file at `now`, given what is found. It is
/// refused where the file is locked, and where the log is there but cannot be read.
pub fn record_attempt(file: LogFile, file_id: &str, current_time: u64) -> (step: AttemptStep)
    requires
        is_locked(entry(file_entries(file), file_id@), current_time) || countable(
            entry(file_entries(file), file_id@),
            current_time,
        ),
    ensures
        ({
            let before = file_entries(file);
            let log = entry(before, file_id@);
            match step {
                AttemptStep::Refuse(error) => if is_locked(log, current_time) {
                    error is MaxAttemptsExceeded
                } else {
                    file is Unreadable && error == CryptoError::IoError(file->Unreadable_0)
                },
                AttemptStep::Store { logs, attempts } => {
                    &&& !is_locked(log, current_time) && !(file is Unreadable)
                    &&& attempts == after_attempt(log, file_id@, current_time).attempts
                    &&& entries(logs@) == after_check(before, file_id@, current_time)
                },
            }
        }),
        file is Read && file->Read_0 is Some ==> {
            let stored = file->Read_0->0@;
            let locked = exists|i: int|
                #[trigger] records::first_for(stored, file_id@, i) && stored[i].locked_until is Some
                    && current_time < stored[i].locked_until->0;
            match step {
                AttemptStep::Refuse(_) => locked,
                AttemptStep::Store { logs, attempts } => {
                    &&& !locked
                    &&& logs@.len() >= stored.len()
                    &&& forall|j: int|
                        0 <= j < stored.len() && stored[j].file_id@ != file_id@ ==> (
                        #[trigger] logs@[j])@ == stored[j]@
                },
            }
        },
{
    proof {
        if file is Read && file->Read_0 is Some {
            records::law_log_decides_and_keeps_other_entries(
                file->Read_0->0,
                file_id@,
                current_time,
            );
        }
    }
    let mut logs = match file {
        LogFile::Unreadable(error) => {
            return AttemptStep::Refuse(CryptoError::from(error));
        },
        LogFile::Read(Some(logs)) => logs,
        _ => Vec::new(),
    };
    assert(entries(logs@) =~= file_entries(file));
    match check_and_record_attempt(&mut logs, file_id, current_time) {
        Ok(attempts) => {
            proof {
                let after = after_check(file_entries(file), file_id@, current_time);
                records::law_every_entry_is_seen(logs@);
                if file is Read && file->Read_0 is Some {
                    let stored = file->Read_0->0@;
                    assert forall|j: int|
                        0 <= j < stored.len() && stored[j].file_id@ != file_id@ implies (
                    #[trigger] logs@[j])@ == stored[j]@ by {
                        assert(entries(logs@)[j] == after[j]);
                    }
                }
            }
            AttemptStep::Store { logs, attempts }
        },
        Err(error) => AttemptStep::Refuse(error),
    }
}

/// What came of an attempt: its number where the entries could be written, otherwise the
/// error of writing them.
pub fn attempt_outcome(attempts: u32, stored: Result<(), CryptoError>) -> (outcome: Result<
    u32,
    CryptoError,
>)
    ensures
        match stored {
            Ok(()) => outcome == Ok::<u32, CryptoError>(attempts),
            Err(error) => outcome == Err::<u32, CryptoError>(error),
        },
{
    match stored {
        Ok(()) => Ok(attempts),
        Err(error) => Err(error),
    }
}

/// The entries that are to be written once those of a file have been removed; `None` where
/// there is no log that could be read, and nothing is written.
pub fn cleared_log(file: LogFile, file_id: &str) -> (cleared: Option<Vec<AttemptLog>>)
    ensures
        match cleared {
            Some(logs) => file is Read && entries(logs@) == without_entry(
                file_entries(file),
                file_id@,
            ),
            None => !(file is Read),
        },
{
    let mut logs = match file {
        LogFile::Read(Some(logs)) => logs,
        LogFile::Read(None) => Vec::new(),
        _ => {
            return None;
        },
    };
    assert(entries(logs@) =~= file_entries(file));
    clear_attempt_log(&mut logs, file_id);
    Some(logs)
}

/// How many attempts are left after `attempts` of them, which is told from the second
/// attempt on.
pub fn remaining_attempts(attempts: u32) -> (remaining: Option<u32>)
    requires
        attempts <= MAX_ATTEMPTS,
    ensures
        remaining == (if attempts > 1 {
            Some((MAX_ATTEMPTS - attempts) as u32)
        } else {
            None
        }),
{
    if attempts > 1 {
        Some(MAX_ATTEMPTS - attempts)
    } else {
        None
    }
}

proof fn lemma_entry_is_for_file(logs: Seq<AttemptView>, file_id: Seq<char>)
    ensures
        entry(logs, file_id) is Some ==> entry(logs, file_id)->0.file_id == file_id,
    decreases logs.len(),
{
    if logs.len() > 0 {
        lemma_entry_is_for_file(logs.drop_first(), file_id);
    }
}

/// What was written is read back.
pub proof fn law_read_after_write(logs: Seq<AttemptView>, log: AttemptView)
    ensures
        entry(with_entry(logs, log), log.file_id) == Some(log),
    decreases logs.len(),
{
    let written = with_entry(logs, log);
    if logs.len() > 0 && logs.first().file_id != log.file_id {
        law_read_after_write(logs.drop_first(), log);
        assert(written.drop_first() =~= with_entry(logs.drop_first(), log));
    }
}

/// Writing an entry leaves those of other files as they are.
pub proof fn law_write_leaves_other_files(
    logs: Seq<AttemptView>,
    log: AttemptView,
    file_id: Seq<char>,
)
    requires
        file_id != log.file_id,
    ensures
        entry(with_entry(logs, log), file_id) == entry(logs, file_id),
    decreases logs.len(),
{
    let written = with_entry(logs, log);
    if logs.len() == 0 {
        assert(written.drop_first() =~= logs);
    } else if logs.first().file_id == log.file_id {
        assert(written.drop_first() =~= logs.drop_first());
    } else {
        law_write_leaves_other_files(logs.drop_first(), log, file_id);
        assert(written.drop_first() =~= with_entry(logs.drop_first(), log));
    }
}

/// After a file's entries were removed there is none for it, and those of other files
/// are as they were.
pub proof fn law_clear_removes_one_file(
    logs: Seq<AttemptView>,
    cleared: Seq<char>,
    file_id: Seq<char>,
)
    ensures
        entry(without_entry(logs, cleared), cleared) is None,
        file_id != cleared ==> entry(without_entry(logs, cleared), file_id) == entry(logs, file_id),
    decreases logs.len(),
{
    if logs.len() > 0 {
        law_clear_removes_one_file(logs.drop_first(), cleared, file_id);
        if logs.first().file_id != cleared {
            let left = without_entry(logs, cleared);
            assert(left.drop_first() =~= without_entry(logs.drop_first(), cleared));
        }
    }
}

/// The log holds at most one entry for each file.
pub open spec fn one_entry_each(logs: Seq<AttemptView>) -> bool {
    forall|i: int, j: int|
        0 <= i < j < logs.len() ==> #[trigger] logs[i].file_id != #[trigger] logs[j].file_id
}

/// Writing and clearing keep at most one entry for each file.
pub proof fn law_one_entry_each_is_kept(
    logs: Seq<AttemptView>,
    log: AttemptView,
    file_id: Seq<char>,
)
    requires
        one_entry_each(logs),
    ensures
        one_entry_each(with_entry(logs, log)),
        one_entry_each(without_entry(logs, file_id)),
{
    lemma_with_entry_unique(logs, log);
    lemma_without_entry_unique(logs, file_id);
}

proof fn lemma_with_entry_unique(logs: Seq<AttemptView>, log: AttemptView)
    requires
        one_entry_each(logs),
    ensures
        one_entry_each(with_entry(logs, log)),
        forall|k: int|
            0 <= k < with_entry(logs, log).len() ==> {
                ||| #[trigger] with_entry(logs, log)[k].file_id == log.file_id
                ||| exists|m: int| 0 <= m < logs.len() && logs[m] == with_entry(logs, log)[k]
            },
    decreases logs.len(),
{
    let written = with_entry(logs, log);
    if logs.len() == 0 {
    } else if logs.first().file_id == log.file_id {
        assert forall|k: int| 0 < k < written.len() implies logs[k] == written[k] by {}
        assert forall|k: int| 0 <= k < written.len() implies {
            ||| #[trigger] written[k].file_id == log.file_id
            ||| exists|m: int| 0 <= m < logs.len() && logs[m] == written[k]
        } by {
            if k > 0 {
                assert(logs[k] == written[k]);
            }
        }
    } else {
        let rest = logs.drop_first();
        let rest_written = with_entry(rest, log);
        lemma_with_entry_unique(rest, log);
        assert forall|k: int| 0 <= k < written.len() implies {
            ||| #[trigger] written[k].file_id == log.file_id
            ||| exists|m: int| 0 <= m < logs.len() && logs[m] == written[k]
        } by {
            if k > 0 {
                assert(written[k] == rest_written[k - 1]);
                if rest_written[k - 1].file_id != log.file_id {
                    let m = choose|m: int| 0 <= m < rest.len() && rest[m] == rest_written[k - 1];
                    assert(logs[m + 1] == written[k]);
                }
            } else {
                assert(logs[0] == written[0]);
            }
        }
        assert forall|i: int, j: int| 0 <= i < j < written.len() implies #[trigger] written[i].file_id
            != #[trigger] written[j].file_id by {
            assert(written[j] == rest_written[j - 1]);
            if i > 0 {
                assert(written[i] == rest_written[i - 1]);
            } else if rest_written[j - 1].file_id != log.file_id {
                let m = choose|m: int| 0 <= m < rest.len() && rest[m] == rest_written[j - 1];
                assert(logs[0].file_id != logs[m + 1].file_id);
            }
        }
    }
}

proof fn lemma_without_entry_unique(logs: Seq<AttemptView>, file_id: Seq<char>)
    requires
        one_entry_each(logs),
    ensures
        one_entry_each(without_entry(logs, file_id)),
        forall|k: int|
            0 <= k < without_entry(logs, file_id).len() ==> exists|m: int|
                0 <= m < logs.len() && logs[m] == #[trigger] without_entry(logs, file_id)[k],
    decreases logs.len(),
{
    let left = without_entry(logs, file_id);
    if logs.len() > 0 {
        let rest = logs.drop_first();
        let rest_left = without_entry(rest, file_id);
        lemma_without_entry_unique(rest, file_id);
        let shift: int = if logs.first().file_id == file_id {
            0
        } else {
            1
        };
        assert forall|k: int| 0 <= k < left.len() implies exists|m: int|
            0 <= m < logs.len() && logs[m] == #[trigger] left[k] by {
            if k >= shift {
                assert(left[k] == rest_left[k - shift]);
                let m = choose|m: int| 0 <= m < rest.len() && rest[m] == rest_left[k - shift];
                assert(logs[m + 1] == left[k]);
            } else {
                assert(logs[0] == left[0]);
            }
        }
        assert forall|i: int, j: int| 0 <= i < j < left.len() implies #[trigger] left[i].file_id
            != #[trigger] left[j].file_id by {
            assert(left[j] == rest_left[j - shift]);
            if i >= shift {
                assert(left[i] == rest_left[i - shift]);
            } else {
                let m = choose|m: int| 0 <= m < rest.len() && rest[m] == rest_left[j - shift];
                assert(logs[0].file_id != logs[m + 1].file_id);
            }
        }
    }
}

/// A file without an entry is given its first attempt, and that never locks it.
pub proof fn law_first_attempt(file_id: Seq<char>, now: u64)
    ensures
        !is_locked(None, now),
        countable(None, now),
        after_attempt(None, file_id, now) == (AttemptView {
            file_id,
            attempts: 1,
            locked_until: None,
        }),
{
}

/// An entry counts fewer than the allowed attempts, unless it carries a lock, and never
/// more.
pub open spec fn within_limit(log: AttemptView) -> bool {
    &&& 1 <= log.attempts <= MAX_ATTEMPTS
    &&& log.attempts == MAX_ATTEMPTS <==> log.locked_until is Some
}

/// Every recorded attempt keeps the count within the limit, so that no more than the
/// allowed number of attempts is ever made without a lock.
pub proof fn law_attempts_stay_within_limit(
    log: Option<AttemptView>,
    file_id: Seq<char>,
    now: u64,
)
    requires
        log is Some ==> within_limit(log->0),
        !is_locked(log, now),
    ensures
        within_limit(after_attempt(log, file_id, now)),
        after_attempt(log, file_id, now).attempts == counted_attempts(log) + 1,
{
}

/// Every entry of the log is within the limit.
pub open spec fn log_within_limit(logs: Seq<AttemptView>) -> bool {
    forall|i: int| 0 <= i < logs.len() ==> within_limit(#[trigger] logs[i])
}

/// An attempt, whether it is counted or refused, keeps every entry of the log within the
/// limit, and an attempt that is counted is counted between one and the limit.
pub proof fn law_log_stays_within_limit(logs: Seq<AttemptView>, file_id: Seq<char>, now: u64)
    requires
        log_within_limit(logs),
    ensures
        log_within_limit(after_check(logs, file_id, now)),
        !is_locked(entry(logs, file_id), now) ==> 1 <= after_attempt(
            entry(logs, file_id),
            file_id,
            now,
        ).attempts <= MAX_ATTEMPTS,
{
    lemma_entry_within_limit(logs, file_id);
    if !is_locked(entry(logs, file_id), now) {
        law_attempts_stay_within_limit(entry(logs, file_id), file_id, now);
        lemma_with_entry_within_limit(logs, after_attempt(entry(logs, file_id), file_id, now));
    }
}

proof fn lemma_entry_within_limit(logs: Seq<AttemptView>, file_id: Seq<char>)
    requires
        log_within_limit(logs),
    ensures
        entry(logs, file_id) is Some ==> within_limit(entry(logs, file_id)->0),
    decreases logs.len(),
{
    if logs.len() > 0 {
        assert(within_limit(logs[0]));
        assert forall|i: int| 0 <= i < logs.drop_first().len() implies within_limit(
            #[trigger] logs.drop_first()[i],
        ) by {
            assert(within_limit(logs[i + 1]));
        }
        lemma_entry_within_limit(logs.drop_first(), file_id);
    }
}

proof fn lemma_with_entry_within_limit(logs: Seq<AttemptView>, log: AttemptView)
    requires
        log_within_limit(logs),
        within_limit(log),
    ensures
        log_within_limit(with_entry(logs, log)),
    decreases logs.len(),
{
    if logs.len() > 0 {
        let rest = logs.drop_first();
        assert forall|i: int| 0 <= i < rest.len() implies within_limit(#[trigger] rest[i]) by {
            assert(within_limit(logs[i + 1]));
        }
        lemma_with_entry_within_limit(rest, log);
        let written = with_entry(logs, log);
        assert forall|i: int| 0 <= i < written.len() implies within_limit(#[trigger] written[i]) by {
            if i > 0 {
                if logs.first().file_id == log.file_id {
                    assert(written[i] == rest[i - 1]);
                } else {
                    assert(written[i] == with_entry(rest, log)[i - 1]);
                }
            } else {
                assert(within_limit(logs[0]));
            }
        }
    }
}

/// The entries of other files are the same, in the same order, after an entry was
/// written.
pub proof fn law_write_leaves_other_entries(logs: Seq<AttemptView>, log: AttemptView)
    ensures
        without_entry(with_entry(logs, log), log.file_id) == without_entry(logs, log.file_id),
    decreases logs.len(),
{
    let written = with_entry(logs, log);
    if logs.len() == 0 {
        assert(written.drop_first() =~= logs);
    } else if logs.first().file_id == log.file_id {
        assert(written.drop_first() =~= logs.drop_first());
    } else {
        law_write_leaves_other_entries(logs.drop_first(), log);
        assert(written.drop_first() =~= with_entry(logs.drop_first(), log));
    }
}

/// An attempt that was counted is found when the log is read the next time.
pub proof fn law_counted_attempt_is_read_back(logs: Seq<AttemptView>, file_id: Seq<char>, now: u64)
    requires
        !is_locked(entry(logs, file_id), now),
    ensures
        entry(after_check(logs, file_id, now), file_id) == Some(
            after_attempt(entry(logs, file_id), file_id, now),
        ),
{
    law_read_after_write(logs, after_attempt(entry(logs, file_id), file_id, now));
}

/// The entries of other files are the same, in the same order, after an attempt, whether
/// it is counted or refused.
pub proof fn law_attempt_leaves_other_entries(logs: Seq<AttemptView>, file_id: Seq<char>, now: u64)
    ensures
        without_entry(after_check(logs, file_id, now), file_id) == without_entry(logs, file_id),
{
    law_write_leaves_other_entries(logs, after_attempt(entry(logs, file_id), file_id, now));
}

/// What is read of another file is the same after an attempt, whether it is counted or
/// refused.
pub proof fn law_attempt_leaves_other_files(
    logs: Seq<AttemptView>,
    file_id: Seq<char>,
    other: Seq<char>,
    now: u64,
)
    requires
        other != file_id,
    ensures
        entry(after_check(logs, file_id, now), other) == entry(logs, other),
{
    law_write_leaves_other_files(logs, after_attempt(entry(logs, file_id), file_id, now), other);
}

/// The last attempt allowed locks the file for the whole of the lock time, and once that
/// has run out the count starts again.
pub proof fn law_last_attempt_locks(
    log: Option<AttemptView>,
    file_id: Seq<char>,
    now: u64,
    later: u64,
)
    requires
        countable(log, now),
        counted_attempts(log) + 1 >= MAX_ATTEMPTS,
    ensures
        is_locked(Some(after_attempt(log, file_id, now)), later) <==> later < now + LOCK_SECONDS,
        later >= now + LOCK_SECONDS ==> after_attempt(
            Some(after_attempt(log, file_id, now)),
            file_id,
            later,
        ).attempts == 1,
{
}

/// Three attempts in a row on a file without an entry are counted one, two, three; the
/// third one locks the file.
pub proof fn law_three_attempts_then_locked(
    file_id: Seq<char>,
    first: u64,
    second: u64,
    third: u64,
    fourth: u64,
)
    requires
        third + LOCK_SECONDS <= u64::MAX,
    ensures
        ({
            let one = after_attempt(None, file_id, first);
            let two = after_attempt(Some(one), file_id, second);
            let three = after_attempt(Some(two), file_id, third);
            &&& one.attempts == 1 && !is_locked(Some(one), second) && countable(Some(one), second)
            &&& two.attempts == 2 && !is_locked(Some(two), third) && countable(Some(two), third)
            &&& three.attempts == 3
            &&& is_locked(Some(three), fourth) <==> fourth < third + LOCK_SECONDS
        }),
{
}

} // verus!
