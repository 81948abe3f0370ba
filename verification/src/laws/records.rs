//! The laws of the log of attempts, stated over its entries.
use crate::attempts;
use crate::attempts::{AttemptLog, AttemptView, LogFile};
use vstd::prelude::*;

verus! {

/// Taken by their views, the entries of a log are all there, in order, with every field.
pub proof fn law_every_entry_is_seen(logs: Seq<AttemptLog>)
    ensures
        attempts::entries(logs).len() == logs.len(),
        forall|i: int|
            0 <= i < logs.len() ==> {
                let seen = #[trigger] attempts::entries(logs)[i];
                &&& seen.file_id == logs[i].file_id@
                &&& seen.attempts == logs[i].attempts
                &&& seen.locked_until == logs[i].locked_until
            },
{
}

/// The first entry for a file is the one that is read, and the one that is replaced when
/// an entry is written; all others stay in place.
pub proof fn law_first_entry_is_read_and_replaced(logs: Seq<AttemptView>, i: int, log: AttemptView)
    requires
        0 <= i < logs.len(),
        logs[i].file_id == log.file_id,
        forall|j: int| 0 <= j < i ==> (#[trigger] logs[j]).file_id != log.file_id,
    ensures
        attempts::entry(logs, log.file_id) == Some(logs[i]),
        attempts::with_entry(logs, log) == logs.update(i, log),
    decreases logs.len(),
{
    let rest = logs.drop_first();
    if i == 0 {
        assert(seq![log] + rest =~= logs.update(i, log));
    } else {
        assert(logs[0].file_id != log.file_id);
        assert forall|j: int| 0 <= j < i - 1 implies (#[trigger] rest[j]).file_id
            != log.file_id by {
            assert(rest[j] == logs[j + 1]);
        }
        law_first_entry_is_read_and_replaced(rest, i - 1, log);
        assert(seq![logs[0]] + rest.update(i - 1, log) =~= logs.update(i, log));
    }
}

/// Where no entry is for a file, nothing is read, and a written entry goes behind all
/// others.
pub proof fn law_missing_entry_is_appended(logs: Seq<AttemptView>, log: AttemptView)
    requires
        forall|j: int| 0 <= j < logs.len() ==> (#[trigger] logs[j]).file_id != log.file_id,
    ensures
        attempts::entry(logs, log.file_id) is None,
        attempts::with_entry(logs, log) == logs.push(log),
    decreases logs.len(),
{
    if logs.len() == 0 {
        assert(seq![log] =~= logs.push(log));
    } else {
        let rest = logs.drop_first();
        assert(logs[0].file_id != log.file_id);
        assert forall|j: int| 0 <= j < rest.len() implies (#[trigger] rest[j]).file_id
            != log.file_id by {
            assert(rest[j] == logs[j + 1]);
        }
        law_missing_entry_is_appended(rest, log);
        assert(seq![logs[0]] + rest.push(log) =~= logs.push(log));
    }
}

/// Clearing a file removes its entries wherever they stand and keeps every other entry: it
/// works on the parts of a log one by one, removes a single entry exactly if it is for the
/// file, and leaves an empty log empty.
pub proof fn law_clearing_works_entry_by_entry(
    a: Seq<AttemptView>,
    b: Seq<AttemptView>,
    log: AttemptView,
    file_id: Seq<char>,
)
    ensures
        attempts::without_entry(a + b, file_id) == attempts::without_entry(a, file_id)
            + attempts::without_entry(b, file_id),
        attempts::without_entry(seq![log], file_id) == (if log.file_id == file_id {
            Seq::empty()
        } else {
            seq![log]
        }),
        attempts::without_entry(Seq::empty(), file_id) == Seq::<AttemptView>::empty(),
    decreases a.len(),
{
    assert(seq![log].drop_first() =~= Seq::empty());
    assert(attempts::without_entry(seq![log].drop_first(), file_id) =~= Seq::empty());
    assert(seq![log] + Seq::<AttemptView>::empty() =~= seq![log]);
    if a.len() == 0 {
        assert(a + b =~= b);
        assert(attempts::without_entry(a, file_id) + attempts::without_entry(b, file_id)
            =~= attempts::without_entry(b, file_id));
    } else {
        law_clearing_works_entry_by_entry(a.drop_first(), b, log, file_id);
        assert((a + b).drop_first() =~= a.drop_first() + b);
        assert(attempts::without_entry(a + b, file_id) =~= attempts::without_entry(a, file_id)
            + attempts::without_entry(b, file_id));
    }
}

/// A file is locked exactly while its entry says so: up to, and not at, the end of the
/// lock. Without an entry, or without a lock in it, it is not locked.
pub proof fn law_lock_lasts_until_its_end(log: AttemptView, until: u64, now: u64)
    ensures
        !attempts::is_locked(None, now),
        log.locked_until is None ==> !attempts::is_locked(Some(log), now),
        log.locked_until == Some(until) ==> (attempts::is_locked(Some(log), now) <==> now < until),
{
}

/// How an attempt is counted: one more than before, from one on where there is no entry or
/// its lock has run out; and from the third on the file is locked for 300 seconds.
pub proof fn law_attempts_are_counted_up_and_lock(log: AttemptView, file_id: Seq<char>, now: u64)
    ensures
        attempts::after_attempt(None, file_id, now) == (AttemptView {
            file_id,
            attempts: 1,
            locked_until: None,
        }),
        log.locked_until is Some ==> attempts::after_attempt(Some(log), file_id, now) == (
        AttemptView { file_id, attempts: 1, locked_until: None }),
        log.locked_until is None && log.attempts < 2 ==> attempts::after_attempt(
            Some(log),
            file_id,
            now,
        ) == (AttemptView {
            file_id,
            attempts: (log.attempts + 1) as u32,
            locked_until: None,
        }),
        log.locked_until is None && 2 <= log.attempts < u32::MAX && now + 300 <= u64::MAX
            ==> attempts::after_attempt(Some(log), file_id, now) == (AttemptView {
            file_id,
            attempts: (log.attempts + 1) as u32,
            locked_until: Some((now + 300) as u64),
        }),
{
}

/// An attempt can be counted wherever the count, and the end of a lock that it brings, can
/// be written down.
pub proof fn law_attempt_is_countable_unless_numbers_end(log: AttemptView, now: u64)
    ensures
        attempts::countable(None, now),
        log.locked_until is Some ==> attempts::countable(Some(log), now),
        log.locked_until is None ==> (attempts::countable(Some(log), now) <==> log.attempts
            < u32::MAX && (log.attempts < 2 || now + 300 <= u64::MAX)),
{
}

/// A log that could be read counts with all of its entries, whatever their number; a log
/// that is missing, unreadable or no log counts as empty.
pub proof fn law_whole_log_that_was_read_counts(file: LogFile)
    ensures
        match file {
            LogFile::Read(Some(logs)) => {
                &&& attempts::file_entries(file).len() == logs@.len()
                &&& forall|i: int|
                    0 <= i < logs@.len() ==> {
                        let seen = #[trigger] attempts::file_entries(file)[i];
                        &&& seen.file_id == logs@[i].file_id@
                        &&& seen.attempts == logs@[i].attempts
                        &&& seen.locked_until == logs@[i].locked_until
                    }
            },
            _ => attempts::file_entries(file).len() == 0,
        },
{
}

/// An attempt on a file whose first entry stands at `i` in the log: it is refused, with the
/// log as it is, exactly while that entry is locked; otherwise that entry alone changes.
pub proof fn law_attempt_goes_by_first_entry_of_log(
    logs: Vec<AttemptLog>,
    i: int,
    file_id: Seq<char>,
    now: u64,
)
    requires
        0 <= i < logs@.len(),
        logs@[i].file_id@ == file_id,
        forall|j: int| 0 <= j < i ==> (#[trigger] logs@[j]).file_id@ != file_id,
    ensures
        ({
            let found = attempts::file_entries(LogFile::Read(Some(logs)));
            let after = attempts::after_check(found, file_id, now);
            let locked = match logs@[i].locked_until {
                Some(until) => now < until,
                None => false,
            };
            &&& attempts::is_locked(attempts::entry(found, file_id), now) <==> locked
            &&& after.len() == logs@.len()
            &&& forall|j: int|
                0 <= j < logs@.len() && (j != i || locked) ==> {
                    let kept = #[trigger] after[j];
                    &&& kept.file_id == logs@[j].file_id@
                    &&& kept.attempts == logs@[j].attempts
                    &&& kept.locked_until == logs@[j].locked_until
                }
            &&& !locked ==> after[i] == attempts::after_attempt(Some(found[i]), file_id, now)
        }),
{
    let found = attempts::file_entries(LogFile::Read(Some(logs)));
    law_whole_log_that_was_read_counts(LogFile::Read(Some(logs)));
    assert forall|j: int| 0 <= j < i implies (#[trigger] found[j]).file_id != file_id by {
        assert(logs@[j].file_id@ != file_id);
    }
    let log = attempts::after_attempt(Some(found[i]), file_id, now);
    law_first_entry_is_read_and_replaced(found, i, log);
}

/// An attempt on a file that the log holds no entry for is always counted as the first, and
/// its entry goes behind all that are there.
pub proof fn law_first_attempt_is_appended_to_log(
    logs: Vec<AttemptLog>,
    file_id: Seq<char>,
    now: u64,
)
    requires
        forall|j: int| 0 <= j < logs@.len() ==> (#[trigger] logs@[j]).file_id@ != file_id,
    ensures
        ({
            let found = attempts::file_entries(LogFile::Read(Some(logs)));
            &&& attempts::entry(found, file_id) is None
            &&& attempts::after_check(found, file_id, now) == found.push(
                AttemptView { file_id, attempts: 1, locked_until: None },
            )
        }),
{
    let found = attempts::file_entries(LogFile::Read(Some(logs)));
    law_whole_log_that_was_read_counts(LogFile::Read(Some(logs)));
    assert forall|j: int| 0 <= j < found.len() implies (#[trigger] found[j]).file_id
        != file_id by {
        assert(logs@[j].file_id@ != file_id);
    }
    law_missing_entry_is_appended(
        found,
        AttemptView { file_id, attempts: 1, locked_until: None },
    );
}

/// The first of the entries for a file in a log stands at `i`.
pub open spec fn first_for(logs: Seq<AttemptLog>, file_id: Seq<char>, i: int) -> bool {
    &&& 0 <= i < logs.len()
    &&& logs[i].file_id@ == file_id
    &&& forall|j: int| 0 <= j < i ==> (#[trigger] logs[j]).file_id@ != file_id
}

/// Whatever log was read, an attempt is refused exactly if the first entry for the file
/// carries a lock that still holds, and every entry for another file stays where it is.
pub proof fn law_log_decides_and_keeps_other_entries(
    logs: Vec<AttemptLog>,
    file_id: Seq<char>,
    now: u64,
)
    ensures
        ({
            let found = attempts::file_entries(LogFile::Read(Some(logs)));
            let after = attempts::after_check(found, file_id, now);
            &&& attempts::is_locked(attempts::entry(found, file_id), now) <==> exists|i: int|
                #[trigger] first_for(logs@, file_id, i) && logs@[i].locked_until is Some && now
                    < logs@[i].locked_until->0
            &&& logs@.len() <= after.len() <= logs@.len() + 1
            &&& forall|j: int|
                0 <= j < logs@.len() && logs@[j].file_id@ != file_id ==> {
                    let kept = #[trigger] after[j];
                    &&& kept.file_id == logs@[j].file_id@
                    &&& kept.attempts == logs@[j].attempts
                    &&& kept.locked_until == logs@[j].locked_until
                }
        }),
{
    let found = attempts::file_entries(LogFile::Read(Some(logs)));
    if forall|j: int| 0 <= j < logs@.len() ==> (#[trigger] logs@[j]).file_id@ != file_id {
        law_first_attempt_is_appended_to_log(logs, file_id, now);
        law_whole_log_that_was_read_counts(LogFile::Read(Some(logs)));
        let after = attempts::after_check(found, file_id, now);
        assert forall|j: int| 0 <= j < logs@.len() implies #[trigger] after[j] == found[j] by {}
    } else {
        let any = choose|j: int| 0 <= j < logs@.len() && (#[trigger] logs@[j]).file_id@ == file_id;
        let i = lemma_first_for_exists(logs@, file_id, any);
        law_attempt_goes_by_first_entry_of_log(logs, i, file_id, now);
        assert forall|k: int| #[trigger] first_for(logs@, file_id, k) implies k == i by {
            if k < i {
                assert(logs@[k].file_id@ != file_id);
            }
            if i < k {
                assert(logs@[i].file_id@ != file_id);
            }
        }
    }
}

proof fn lemma_first_for_exists(logs: Seq<AttemptLog>, file_id: Seq<char>, at: int) -> (i: int)
    requires
        0 <= at < logs.len(),
        logs[at].file_id@ == file_id,
    ensures
        first_for(logs, file_id, i),
    decreases at,
{
    if exists|j: int| 0 <= j < at && (#[trigger] logs[j]).file_id@ == file_id {
        let j = choose|j: int| 0 <= j < at && (#[trigger] logs[j]).file_id@ == file_id;
        lemma_first_for_exists(logs, file_id, j)
    } else {
        at
    }
}

} // verus!
