//! Laws of recording and dropping logs, told in the fields of the logs.

use super::insert::inserting;
use super::insert::is_newer;
use super::insert::is_touched;
use super::insert::log_body;
use super::insert::log_bytes;
use super::insert::newest_down_to;
use super::insert::numbered;
use super::insert::recordable;
use super::insert::same_partition;
use super::insert::stays;
use super::insert::stored_log;
use super::insert::total_bytes;
use super::insert::within_limits;
use super::LogEntry;
use super::LogStore;
use super::LogStoreError;
use super::LogStoreView;
use super::StoredLog;
use crate::backend::RuntimeStateBackend;
use crate::sequences::lemma_filter_members;
use crate::text::holds_text;
use vstd::prelude::*;
use vstd::utf8::encode_utf8;

verus! {

/// Both texts are absent, or both are the same.
pub open spec fn same_name(a: Option<String>, b: Option<String>) -> bool {
    match (a, b) {
        (Some(a), Some(b)) => a@ == b@,
        (None, None) => true,
        _ => false,
    }
}

/// Both logs are of the same thread or, without a thread, of the same process.
pub open spec fn belong_together(a: StoredLog, b: StoredLog) -> bool {
    same_name(a.thread_id, b.thread_id) && (a.thread_id is Some || same_name(a.process_uuid, b.process_uuid))
}

/// `a` was written after `b`: at a later time or, at the same time, under a greater identifier.
pub open spec fn written_after(a: StoredLog, b: StoredLog) -> bool {
    if a.ts != b.ts {
        a.ts > b.ts
    } else if a.ts_nanos != b.ts_nanos {
        a.ts_nanos > b.ts_nanos
    } else {
        a.id > b.id
    }
}

/// Bytes of an optional text.
pub open spec fn bytes_of(text: Option<String>) -> int {
    if text is Some {
        encode_utf8(text->0@).len() as int
    } else {
        0
    }
}

/// What was given to be recorded is what is stored: the body for feedback is stored where there is one,
/// or else the message.
pub open spec fn is_kept_as_given(row: StoredLog, entry: LogEntry) -> bool {
    let body = if entry.feedback_log_body is Some {
        entry.feedback_log_body
    } else {
        entry.message
    };
    &&& row.ts == entry.ts
    &&& row.ts_nanos == entry.ts_nanos
    &&& row.level@ == entry.level@
    &&& row.target@ == entry.target@
    &&& row.body == body
    &&& row.thread_id == entry.thread_id
    &&& row.process_uuid == entry.process_uuid
    &&& row.module == entry.module
    &&& row.file == entry.file
    &&& row.line == entry.line
    &&& row.estimated_bytes == bytes_of(body) + encode_utf8(entry.level@).len() + encode_utf8(entry.target@).len() + bytes_of(entry.module) + bytes_of(entry.file)
}

/// The size of a log is that of its text, level, target, module and file.
pub proof fn law_size_of_a_log(entry: &LogEntry, size: i64)
    requires
        call_ensures(super::estimated_log_bytes, (entry,), size),
    ensures
        entry.feedback_log_body is Some ==> size == encode_utf8(entry.feedback_log_body->0@).len() + encode_utf8(entry.level@).len() + encode_utf8(entry.target@).len() + bytes_of(
            entry.module,
        ) + bytes_of(entry.file),
        entry.feedback_log_body is None ==> size == bytes_of(entry.message) + encode_utf8(entry.level@).len() + encode_utf8(entry.target@).len() + bytes_of(entry.module)
            + bytes_of(entry.file),
{
}

proof fn lemma_total(rows: Seq<StoredLog>)
    ensures
        total_bytes(rows) == rows.fold_left(0int, |sum: int, row: StoredLog| sum + row.estimated_bytes),
    decreases rows.len(),
{
    if rows.len() > 0 {
        lemma_total(rows.drop_last());
    }
}

/// `row` and the logs written after it that it belongs together with.
pub open spec fn from_row_on(all: Seq<StoredLog>, row: StoredLog) -> Seq<StoredLog> {
    all.filter(|other: StoredLog| belong_together(other, row) && !written_after(row, other))
}

proof fn lemma_limits(all: Seq<StoredLog>, row: StoredLog)
    ensures
        within_limits(all, row) <==> from_row_on(all, row).len() <= 1000 && from_row_on(all, row).fold_left(
            0int,
            |sum: int, other: StoredLog| sum + other.estimated_bytes,
        ) <= 10 * 1024 * 1024,
{
    assert((|other: StoredLog| belong_together(other, row) && !written_after(row, other)) =~= (|other: StoredLog| same_partition(other, row) && !is_newer(row, other)));
    assert(from_row_on(all, row) == newest_down_to(all, row));
    lemma_total(newest_down_to(all, row));
}

/// The log is of no thread, or of one of the given ones.
pub open spec fn is_of_known_thread(entry: LogEntry, known_threads: Seq<String>) -> bool {
    entry.thread_id is None || exists|k: int| 0 <= k < known_threads.len() && #[trigger] known_threads[k]@ == entry.thread_id->0@
}

/// Recorded logs get the identifiers that follow the last one, in the order given, and are stored as
/// given. In a shared database those of unknown threads are left out. Of all logs then held, those stay
/// that belong to no thread or process just written to, and those that are, together with what was
/// written after them there, no more than a thousand logs and no more than ten mebibytes.
pub open spec fn keeps_the_newest(before: LogStoreView, entries: Seq<LogEntry>, known_threads: Seq<String>, after: LogStoreView, all: Seq<StoredLog>) -> bool {
    let size = before.rows.len() as int;
    &&& all.len() >= size
    &&& all.take(size) == before.rows
    &&& after.last_id == before.last_id + (all.len() - size)
    &&& after.backend == before.backend
    &&& before.backend is Sqlite ==> all.len() == size + entries.len()
    &&& forall|i: int|
        #![trigger all[i]]
        size <= i < all.len() ==> {
            &&& all[i].id == before.last_id + 1 + (i - size)
            &&& before.backend is Sqlite ==> is_kept_as_given(all[i], entries[i - size])
            &&& exists|k: int| 0 <= k < entries.len() && is_kept_as_given(all[i], #[trigger] entries[k])
            &&& before.backend is Postgresql && all[i].thread_id is Some ==> exists|k: int|
                0 <= k < known_threads.len() && #[trigger] known_threads[k]@ == all[i].thread_id->0@
        }
    &&& forall|k: int|
        0 <= k < entries.len() && is_of_known_thread(#[trigger] entries[k], known_threads) ==> exists|i: int|
            size <= i < all.len() && is_kept_as_given(#[trigger] all[i], entries[k])
    &&& forall|row: StoredLog| #[trigger]
        after.rows.contains(row) <==> {
            &&& all.contains(row)
            &&& (exists|i: int| size <= i < all.len() && belong_together(#[trigger] all[i], row)) ==> {
                &&& from_row_on(all, row).len() <= 1000
                &&& from_row_on(all, row).fold_left(0int, |sum: int, other: StoredLog| sum + other.estimated_bytes) <= 10 * 1024 * 1024
            }
        }
}

/// Recording logs keeps the newest.
pub proof fn law_recording_keeps_the_newest(store: &mut LogStore, entries: &[LogEntry], known_threads: &[String]) -> (all: Seq<StoredLog>)
    requires
        call_ensures(LogStore::insert_logs, (store, entries, known_threads), Ok::<(), LogStoreError>(())),
        entries@.len() > 0,
    ensures
        keeps_the_newest(old(store)@, entries@, known_threads@, final(store)@, all),
{
    lemma_recording(old(store)@, entries@, known_threads@, final(store)@);
    held_before_pruning(old(store)@, entries@, known_threads@)
}

/// The stored logs and, behind them, those to be recorded.
pub open spec fn held_before_pruning(before: LogStoreView, entries: Seq<LogEntry>, known_threads: Seq<String>) -> Seq<StoredLog> {
    before.rows + numbered(recordable(before.backend, entries, known_threads), before.last_id)
}

pub(crate) proof fn lemma_recording(before: LogStoreView, entries: Seq<LogEntry>, known_threads: Seq<String>, after: LogStoreView)
    requires
        inserting(before, entries, known_threads) == (after, Ok::<(), LogStoreError>(())),
        entries.len() > 0,
    ensures
        keeps_the_newest(before, entries, known_threads, after, held_before_pruning(before, entries, known_threads)),
{
    let kept = recordable(before.backend, entries, known_threads);
    let all = held_before_pruning(before, entries, known_threads);
    let size = before.rows.len() as int;
    assert(all.take(size) =~= before.rows);
    assert forall|i: int| #![trigger all[i]] size <= i < all.len() implies {
        &&& all[i].id == before.last_id + 1 + (i - size)
        &&& before.backend is Sqlite ==> is_kept_as_given(all[i], entries[i - size])
        &&& exists|k: int| 0 <= k < entries.len() && is_kept_as_given(all[i], #[trigger] entries[k])
        &&& before.backend is Postgresql && all[i].thread_id is Some ==> exists|k: int|
            0 <= k < known_threads.len() && #[trigger] known_threads[k]@ == all[i].thread_id->0@
    } by {
        lemma_added(before, entries, known_threads, after, i - size);
    }
    assert forall|k: int| 0 <= k < entries.len() && is_of_known_thread(#[trigger] entries[k], known_threads) implies exists|i: int|
        size <= i < all.len() && is_kept_as_given(#[trigger] all[i], entries[k]) by {
        lemma_entry_is_added(before, entries, known_threads, after, k);
    }
    assert forall|row: StoredLog| #[trigger]
        after.rows.contains(row) <==> {
            &&& all.contains(row)
            &&& (exists|i: int| size <= i < all.len() && belong_together(#[trigger] all[i], row)) ==> {
                &&& from_row_on(all, row).len() <= 1000
                &&& from_row_on(all, row).fold_left(0int, |sum: int, other: StoredLog| sum + other.estimated_bytes) <= 10 * 1024 * 1024
            }
        } by {
        lemma_stays(before, entries, known_threads, after, row);
    }
}

proof fn lemma_added(before: LogStoreView, entries: Seq<LogEntry>, known_threads: Seq<String>, after: LogStoreView, m: int)
    requires
        inserting(before, entries, known_threads) == (after, Ok::<(), LogStoreError>(())),
        entries.len() > 0,
        0 <= m < recordable(before.backend, entries, known_threads).len(),
    ensures
        ({
            let row = held_before_pruning(before, entries, known_threads)[before.rows.len() + m];
            &&& row.id == before.last_id + 1 + m
            &&& is_kept_as_given(row, recordable(before.backend, entries, known_threads)[m])
            &&& exists|k: int| 0 <= k < entries.len() && is_kept_as_given(row, #[trigger] entries[k])
            &&& before.backend is Postgresql && row.thread_id is Some ==> exists|k: int| 0 <= k < known_threads.len() && #[trigger] known_threads[k]@ == row.thread_id->0@
        }),
{
    let kept = recordable(before.backend, entries, known_threads);
    let row = held_before_pruning(before, entries, known_threads)[before.rows.len() + m];
    let entry = kept[m];
    assert(row == stored_log(entry, (before.last_id + 1 + m) as i64));
    assert(log_bytes(kept[m]) <= i64::MAX);
    assert(is_kept_as_given(row, entry));
    if before.backend is Postgresql {
        let canonical = |entry: LogEntry| super::insert::is_canonical(entry, known_threads);
        assert(kept.contains(entry));
        lemma_filter_members(entries, canonical, entry);
        let k = choose|k: int| 0 <= k < entries.len() && entries[k] == entry;
        assert(is_kept_as_given(row, entries[k]));
        if entry.thread_id is Some {
            assert(holds_text(known_threads, entry.thread_id->0@));
        }
    } else {
        assert(is_kept_as_given(row, entries[m]));
    }
}

proof fn lemma_entry_is_added(before: LogStoreView, entries: Seq<LogEntry>, known_threads: Seq<String>, after: LogStoreView, k: int)
    requires
        inserting(before, entries, known_threads) == (after, Ok::<(), LogStoreError>(())),
        0 <= k < entries.len(),
        is_of_known_thread(entries[k], known_threads),
    ensures
        ({
            let all = held_before_pruning(before, entries, known_threads);
            exists|i: int| before.rows.len() <= i < all.len() && is_kept_as_given(#[trigger] all[i], entries[k])
        }),
{
    let kept = recordable(before.backend, entries, known_threads);
    let all = held_before_pruning(before, entries, known_threads);
    let canonical = |entry: LogEntry| super::insert::is_canonical(entry, known_threads);
    assert(entries.contains(entries[k]));
    if before.backend is Postgresql {
        assert(canonical(entries[k]));
        lemma_filter_members(entries, canonical, entries[k]);
    }
    assert(kept.contains(entries[k]));
    let m = choose|m: int| 0 <= m < kept.len() && kept[m] == entries[k];
    lemma_added(before, entries, known_threads, after, m);
    assert(is_kept_as_given(all[before.rows.len() + m], entries[k]));
}

proof fn lemma_stays(before: LogStoreView, entries: Seq<LogEntry>, known_threads: Seq<String>, after: LogStoreView, row: StoredLog)
    requires
        inserting(before, entries, known_threads) == (after, Ok::<(), LogStoreError>(())),
        entries.len() > 0,
    ensures
        ({
            let all = held_before_pruning(before, entries, known_threads);
            after.rows.contains(row) <==> {
                &&& all.contains(row)
                &&& (exists|i: int| before.rows.len() <= i < all.len() && belong_together(#[trigger] all[i], row)) ==> {
                    &&& from_row_on(all, row).len() <= 1000
                    &&& from_row_on(all, row).fold_left(0int, |sum: int, other: StoredLog| sum + other.estimated_bytes) <= 10 * 1024 * 1024
                }
            }
        }),
{
    let added = numbered(recordable(before.backend, entries, known_threads), before.last_id);
    let all = before.rows + added;
    let size = before.rows.len() as int;
    lemma_filter_members(all, |row: StoredLog| stays(all, added, row), row);
    lemma_limits(all, row);
    if is_touched(added, row) {
        let k = choose|k: int| 0 <= k < added.len() && same_partition(#[trigger] added[k], row);
        assert(belong_together(all[size + k], row));
    }
    if exists|i: int| size <= i < all.len() && belong_together(#[trigger] all[i], row) {
        let i = choose|i: int| size <= i < all.len() && belong_together(#[trigger] all[i], row);
        assert(same_partition(added[i - size], row));
    }
}

/// One log is recorded as a list of one is.
pub proof fn law_one_log_is_recorded(store: &mut LogStore, entry: &LogEntry, known_threads: &[String], result: Result<(), LogStoreError>)
    requires
        call_ensures(LogStore::insert_log, (store, entry, known_threads), result),
        forall|i: int| 0 <= i < old(store)@.rows.len() ==> (#[trigger] old(store)@.rows[i]).id <= old(store)@.last_id,
    ensures
        result is Err ==> final(store)@ == old(store)@,
        old(store)@.closed ==> result == Err::<(), LogStoreError>(LogStoreError::Closed),
        result is Ok ==> final(store)@.last_id == old(store)@.last_id + 1,
        result is Ok ==> forall|i: int|
            #![trigger final(store)@.rows[i]]
            0 <= i < final(store)@.rows.len() && final(store)@.rows[i].id > old(store)@.last_id ==> is_kept_as_given(final(store)@.rows[i], *entry),
{
    if result is Ok {
        let before = old(store)@;
        let kept = recordable(before.backend, seq![*entry], known_threads@);
        reveal(Seq::filter);
        reveal_with_fuel(Seq::filter, 2);
        let one = seq![*entry];
        assert(one.drop_last() =~= Seq::empty());
        assert(kept.len() <= 1);
        let added = numbered(kept, before.last_id);
        let all = before.rows + added;
        assert forall|i: int| #![trigger final(store)@.rows[i]] 0 <= i < final(store)@.rows.len() && final(store)@.rows[i].id > before.last_id implies is_kept_as_given(
            final(store)@.rows[i],
            *entry,
        ) by {
            let row = final(store)@.rows[i];
            assert(final(store)@.rows.contains(row));
            lemma_filter_members(all, |row: StoredLog| stays(all, added, row), row);
            let k = choose|k: int| 0 <= k < all.len() && all[k] == row;
            if k < before.rows.len() {
                assert(before.rows[k].id <= before.last_id);
            }
            assert(log_bytes(kept[0]) <= i64::MAX);
            assert(kept[0] == *entry);
        }
    }
}

/// Recording fails for a closed store; in a shared database where no given log is of a known thread or of
/// none; and where a size or an identifier cannot be counted. It then changes nothing. Nothing given is
/// nothing to do.
pub proof fn law_recording_fails_as_a_whole(store: &mut LogStore, entries: &[LogEntry], known_threads: &[String], result: Result<(), LogStoreError>)
    requires
        call_ensures(LogStore::insert_logs, (store, entries, known_threads), result),
    ensures
        result is Err ==> final(store)@ == old(store)@,
        entries@.len() == 0 ==> result is Ok && final(store)@ == old(store)@,
        entries@.len() > 0 && old(store)@.closed ==> result == Err::<(), LogStoreError>(LogStoreError::Closed),
        entries@.len() > 0 && !old(store)@.closed && old(store)@.backend is Sqlite && old(store)@.last_id + entries@.len() <= i64::MAX && (forall|k: int|
            0 <= k < entries@.len() ==> bytes_of((#[trigger] entries@[k]).message) + bytes_of(entries@[k].feedback_log_body) + encode_utf8(entries@[k].level@).len()
                + encode_utf8(entries@[k].target@).len() + bytes_of(entries@[k].module) + bytes_of(entries@[k].file) <= i64::MAX) ==> result is Ok,
        entries@.len() > 0 && !old(store)@.closed && old(store)@.backend is Postgresql && (forall|k: int|
            0 <= k < entries@.len() ==> (#[trigger] entries@[k]).thread_id is Some && forall|t: int|
                0 <= t < known_threads@.len() ==> (#[trigger] known_threads@[t])@ != entries@[k].thread_id->0@) ==> result == Err::<(), LogStoreError>(
            LogStoreError::NoCanonicalThread,
        ),
        result == Err::<(), LogStoreError>(LogStoreError::NoCanonicalThread) ==> old(store)@.backend is Postgresql,
{
    let before = old(store)@;
    let kept = recordable(before.backend, entries@, known_threads@);
    if before.backend is Sqlite {
        assert forall|i: int| 0 <= i < kept.len() implies log_bytes(#[trigger] kept[i]) <= bytes_of(entries@[i].message) + bytes_of(entries@[i].feedback_log_body) + encode_utf8(
            entries@[i].level@,
        ).len() + encode_utf8(entries@[i].target@).len() + bytes_of(entries@[i].module) + bytes_of(entries@[i].file) by {
            assert(log_body(kept[i]) == kept[i].feedback_log_body || log_body(kept[i]) == kept[i].message);
        }
    } else if kept.len() > 0 {
        let canonical = |entry: LogEntry| super::insert::is_canonical(entry, known_threads@);
        assert(kept.contains(kept[0]));
        lemma_filter_members(entries@, canonical, kept[0]);
        let k = choose|k: int| 0 <= k < entries@.len() && entries@[k] == kept[0];
        if entries@[k].thread_id is Some {
            assert(holds_text(known_threads@, entries@[k].thread_id->0@));
        }
    }
}

/// Deleting the logs of a thread drops those and no others.
pub proof fn law_thread_logs_are_deleted(store: &mut LogStore, thread_id: &str, result: Result<(), LogStoreError>, row: StoredLog)
    requires
        call_ensures(LogStore::delete_logs_for_thread, (store, thread_id), result),
    ensures
        result is Err <==> old(store)@.closed,
        result is Err ==> final(store)@ == old(store)@,
        result is Ok ==> final(store)@.last_id == old(store)@.last_id,
        result is Ok ==> (final(store)@.rows.contains(row) <==> old(store)@.rows.contains(row) && (row.thread_id is None || row.thread_id->0@ != thread_id@)),
{
    lemma_filter_members(old(store)@.rows, |row: StoredLog| crate::thread_id::opt_view(row.thread_id) != Some(thread_id@), row);
}

/// Maintenance drops the logs that are more than ten days old and no others.
pub proof fn law_maintenance_drops_old_logs(store: &mut LogStore, now: i64, result: Result<(), LogStoreError>, row: StoredLog)
    requires
        call_ensures(LogStore::run_startup_maintenance_at, (store, now), result),
        now >= 0,
    ensures
        result is Err <==> old(store)@.closed,
        result is Err ==> final(store)@ == old(store)@,
        result is Ok ==> final(store)@.last_id == old(store)@.last_id,
        result is Ok ==> (final(store)@.rows.contains(row) <==> old(store)@.rows.contains(row) && now - row.ts <= 10 * 24 * 60 * 60),
{
    lemma_filter_members(old(store)@.rows, |row: StoredLog| row.ts >= now - super::LOG_RETENTION_DAYS * 86400, row);
}

/// A size can be counted if it fits in 63 bits.
pub proof fn law_countable_sizes(entry: &LogEntry, countable: bool)
    requires
        call_ensures(super::has_countable_size, (entry,), countable),
    ensures
        ({
            let body = if entry.feedback_log_body is Some {
                entry.feedback_log_body
            } else {
                entry.message
            };
            countable <==> bytes_of(body) + encode_utf8(entry.level@).len() + encode_utf8(entry.target@).len() + bytes_of(entry.module) + bytes_of(entry.file) <= i64::MAX
        }),
{
}

/// Stored logs are taken over where their identifiers grow up to the last one given out and no size is negative.
pub proof fn law_stored_logs_are_taken_over(backend: RuntimeStateBackend, rows: Vec<StoredLog>, last_id: i64, store: Option<LogStore>)
    requires
        call_ensures(LogStore::from_rows, (backend, rows, last_id), store),
    ensures
        store is Some <==> {
            &&& 0 <= last_id
            &&& forall|i: int| 0 <= i < rows@.len() ==> 0 < (#[trigger] rows@[i]).id <= last_id && 0 <= rows@[i].estimated_bytes
            &&& forall|i: int, j: int| #![trigger rows@[i], rows@[j]] 0 <= i < j < rows@.len() ==> rows@[i].id < rows@[j].id
        },
        store is Some ==> store->0@.rows == rows@ && store->0@.last_id == last_id && store->0@.backend == backend && !store->0@.closed,
{
}

/// Maintenance at the time of the clock only drops logs, and none that is newer than one that stays.
pub proof fn law_maintenance_now(store: &mut LogStore, result: Result<(), LogStoreError>)
    requires
        call_ensures(LogStore::run_startup_maintenance, (store,), result),
    ensures
        forall|row: StoredLog| #[trigger] final(store)@.rows.contains(row) ==> old(store)@.rows.contains(row),
        forall|a: StoredLog, b: StoredLog|
            #![trigger old(store)@.rows.contains(a), final(store)@.rows.contains(b)]
            old(store)@.rows.contains(a) && final(store)@.rows.contains(b) && a.ts >= b.ts ==> final(store)@.rows.contains(a),
        final(store)@.last_id == old(store)@.last_id,
{
    let now = choose|now: i64| (final(store)@, result) == #[trigger] super::insert::maintaining(old(store)@, now);
    let keep = |row: StoredLog| row.ts >= now - super::LOG_RETENTION_DAYS * 86400;
    assert forall|row: StoredLog| #[trigger] old(store)@.rows.filter(keep).contains(row) <==> old(store)@.rows.contains(row) && keep(row) by {
        lemma_filter_members(old(store)@.rows, keep, row);
    }
}

} // verus!
