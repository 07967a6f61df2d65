//! Recording logs, and keeping partitions within their limits.

use super::in_id_order;
use super::LogEntry;
use super::LogStore;
use super::LogStoreError;
use super::LogStoreView;
use super::StoredLog;
use super::LOG_PARTITION_ROW_LIMIT;
use super::LOG_PARTITION_SIZE_LIMIT_BYTES;
use super::LOG_RETENTION_DAYS;
use crate::backend::RuntimeStateBackend;
use crate::outside::now_millis;
use crate::text::byte_len;
use crate::text::byte_length;
use crate::text::has_text;
use crate::text::holds_text;
use crate::text::is_text;
use crate::thread_id::opt_view;
use crate::threads::clone_text;
use crate::time::whole_seconds_of;
use vstd::prelude::*;

verus! {

/// The text of a log: the body for feedback, or else the message.
pub open spec fn log_body(entry: LogEntry) -> Option<String> {
    if entry.feedback_log_body is Some {
        entry.feedback_log_body
    } else {
        entry.message
    }
}

pub open spec fn opt_byte_len(text: Option<String>) -> int {
    match text {
        Some(text) => byte_len(text@) as int,
        None => 0,
    }
}

/// Bytes that a log is estimated to take: those of its body, level, target, module and file.
pub open spec fn log_bytes(entry: LogEntry) -> int {
    opt_byte_len(log_body(entry)) + byte_len(entry.level@) + byte_len(entry.target@) + opt_byte_len(entry.module) + opt_byte_len(entry.file)
}

fn opt_byte_length(text: &Option<String>) -> (n: usize)
    ensures
        n == opt_byte_len(*text),
{
    match text {
        Some(text) => byte_length(text.as_str()),
        None => 0,
    }
}

fn body_of(entry: &LogEntry) -> (body: &Option<String>)
    ensures
        *body == log_body(*entry),
{
    if entry.feedback_log_body.is_some() {
        &entry.feedback_log_body
    } else {
        &entry.message
    }
}

fn total_log_bytes(entry: &LogEntry) -> (n: u128)
    ensures
        n == log_bytes(*entry),
{
    let body: usize = opt_byte_length(body_of(entry));
    let level: usize = byte_length(entry.level.as_str());
    let target: usize = byte_length(entry.target.as_str());
    let module: usize = opt_byte_length(&entry.module);
    let file: usize = opt_byte_length(&entry.file);
    body as u128 + level as u128 + target as u128 + module as u128 + file as u128
}

/// Whether the size of a log can be counted.
pub fn has_countable_size(entry: &LogEntry) -> (r: bool)
    ensures
        r == (log_bytes(*entry) <= i64::MAX),
{
    total_log_bytes(entry) <= 9223372036854775807u128
}

/// Bytes that a log is estimated to take.
pub fn estimated_log_bytes(entry: &LogEntry) -> (n: i64)
    requires
        log_bytes(*entry) <= i64::MAX,
    ensures
        n == log_bytes(*entry),
{
    total_log_bytes(entry) as i64
}

/// What is stored of a log.
pub open spec fn stored_log(entry: LogEntry, id: i64) -> StoredLog {
    StoredLog {
        id,
        ts: entry.ts,
        ts_nanos: entry.ts_nanos,
        level: entry.level,
        target: entry.target,
        body: log_body(entry),
        thread_id: entry.thread_id,
        process_uuid: entry.process_uuid,
        module: entry.module,
        file: entry.file,
        line: entry.line,
        estimated_bytes: log_bytes(entry) as i64,
    }
}

/// The logs as stored, with the identifiers that follow `last_id`.
pub open spec fn numbered(entries: Seq<LogEntry>, last_id: i64) -> Seq<StoredLog> {
    Seq::new(entries.len(), |i: int| stored_log(entries[i], (last_id + 1 + i) as i64))
}

/// Two logs count against the same limits: they belong to the same thread or, without a thread,
/// to the same process.
pub open spec fn same_partition(a: StoredLog, b: StoredLog) -> bool {
    &&& opt_view(a.thread_id) == opt_view(b.thread_id)
    &&& a.thread_id is None ==> opt_view(a.process_uuid) == opt_view(b.process_uuid)
}

/// `a` is newer than `b`.
pub open spec fn is_newer(a: StoredLog, b: StoredLog) -> bool {
    a.ts > b.ts || a.ts == b.ts && (a.ts_nanos > b.ts_nanos || a.ts_nanos == b.ts_nanos && a.id > b.id)
}

/// The logs in the partition of `row` that are not older than it; `row` is one of them.
pub open spec fn newest_down_to(rows: Seq<StoredLog>, row: StoredLog) -> Seq<StoredLog> {
    rows.filter(|other: StoredLog| same_partition(other, row) && !is_newer(row, other))
}

/// Sum of the estimated sizes.
pub open spec fn total_bytes(rows: Seq<StoredLog>) -> int
    decreases rows.len(),
{
    if rows.len() == 0 {
        0
    } else {
        total_bytes(rows.drop_last()) + rows.last().estimated_bytes
    }
}

/// `row` and the newer logs of its partition fit in the limits.
pub open spec fn within_limits(rows: Seq<StoredLog>, row: StoredLog) -> bool {
    &&& newest_down_to(rows, row).len() <= LOG_PARTITION_ROW_LIMIT
    &&& total_bytes(newest_down_to(rows, row)) <= LOG_PARTITION_SIZE_LIMIT_BYTES
}

/// Something in `added` is in the partition of `row`.
pub open spec fn is_touched(added: Seq<StoredLog>, row: StoredLog) -> bool {
    exists|i: int| 0 <= i < added.len() && same_partition(#[trigger] added[i], row)
}

/// The logs that stay once `added` has been recorded: in the partitions of `added`, those within
/// the limits; elsewhere all.
pub open spec fn stays(all: Seq<StoredLog>, added: Seq<StoredLog>, row: StoredLog) -> bool {
    is_touched(added, row) ==> within_limits(all, row)
}

/// The store after recording `entries`.
pub open spec fn with_logs(store: LogStoreView, entries: Seq<LogEntry>) -> LogStoreView {
    let added = numbered(entries, store.last_id);
    let all = store.rows + added;
    LogStoreView {
        backend: store.backend,
        rows: all.filter(|row: StoredLog| stays(all, added, row)),
        last_id: (store.last_id + entries.len()) as i64,
        closed: store.closed,
    }
}

/// The log is of no thread, or of one that exists.
pub open spec fn is_canonical(entry: LogEntry, canonical_thread_ids: Seq<String>) -> bool {
    entry.thread_id is Some ==> holds_text(canonical_thread_ids, entry.thread_id->0@)
}

/// The logs that can be recorded. Only a shared database knows which threads exist.
pub open spec fn recordable(backend: RuntimeStateBackend, entries: Seq<LogEntry>, canonical_thread_ids: Seq<String>) -> Seq<LogEntry> {
    match backend {
        RuntimeStateBackend::Postgresql => entries.filter(|entry: LogEntry| is_canonical(entry, canonical_thread_ids)),
        RuntimeStateBackend::Sqlite => entries,
    }
}

/// What recording `entries` leads to.
pub open spec fn inserting(
    store: LogStoreView,
    entries: Seq<LogEntry>,
    canonical_thread_ids: Seq<String>,
) -> (LogStoreView, Result<(), LogStoreError>) {
    let kept = recordable(store.backend, entries, canonical_thread_ids);
    if entries.len() == 0 {
        (store, Ok(()))
    } else if store.closed {
        (store, Err(LogStoreError::Closed))
    } else if kept.len() == 0 {
        (store, Err(LogStoreError::NoCanonicalThread))
    } else if exists|i: int| 0 <= i < kept.len() && log_bytes(#[trigger] kept[i]) > i64::MAX {
        (store, Err(LogStoreError::EntryTooLarge))
    } else if store.last_id + kept.len() > i64::MAX {
        (store, Err(LogStoreError::IdentifiersExhausted))
    } else {
        (with_logs(store, kept), Ok(()))
    }
}

fn same_optional(a: &Option<String>, b: &Option<String>) -> (same: bool)
    ensures
        same == (opt_view(*a) == opt_view(*b)),
{
    match (a, b) {
        (Some(a), Some(b)) => *a == *b,
        (None, None) => true,
        _ => false,
    }
}

fn is_same_partition(a: &StoredLog, b: &StoredLog) -> (same: bool)
    ensures
        same == same_partition(*a, *b),
{
    same_optional(&a.thread_id, &b.thread_id) && (a.thread_id.is_some() || same_optional(&a.process_uuid, &b.process_uuid))
}

pub(super) fn is_log_newer(a: &StoredLog, b: &StoredLog) -> (newer: bool)
    ensures
        newer == is_newer(*a, *b),
{
    a.ts > b.ts || a.ts == b.ts && (a.ts_nanos > b.ts_nanos || a.ts_nanos == b.ts_nanos && a.id > b.id)
}

fn store_log(entry: &LogEntry, id: i64) -> (row: StoredLog)
    requires
        log_bytes(*entry) <= i64::MAX,
    ensures
        row == stored_log(*entry, id),
{
    StoredLog {
        id,
        ts: entry.ts,
        ts_nanos: entry.ts_nanos,
        level: entry.level.clone(),
        target: entry.target.clone(),
        body: clone_text(body_of(entry)),
        thread_id: clone_text(&entry.thread_id),
        process_uuid: clone_text(&entry.process_uuid),
        module: clone_text(&entry.module),
        file: clone_text(&entry.file),
        line: entry.line,
        estimated_bytes: estimated_log_bytes(entry),
    }
}

fn is_within_limits(rows: &Vec<StoredLog>, row: &StoredLog) -> (r: bool)
    ensures
        r == within_limits(rows@, *row),
{
    let ghost newer = |other: StoredLog| same_partition(other, *row) && !is_newer(*row, other);
    let mut count: usize = 0;
    let mut bytes: i128 = 0;
    let mut i: usize = 0;
    while i < rows.len()
        invariant
            i <= rows@.len(),
            newer == (|other: StoredLog| same_partition(other, *row) && !is_newer(*row, other)),
            count == rows@.take(i as int).filter(newer).len(),
            count <= i,
            bytes == total_bytes(rows@.take(i as int).filter(newer)),
            -(i * 0x8000_0000_0000_0000) <= bytes <= i * 0x8000_0000_0000_0000,
        decreases rows@.len() - i,
    {
        proof {
            reveal(Seq::filter);
            let next = rows@.take(i + 1);
            assert(next.drop_last() =~= rows@.take(i as int));
            let held = rows@.take(i as int).filter(newer);
            assert(held.push(rows@[i as int]).drop_last() =~= held);
        }
        let other = &rows[i];
        if is_same_partition(other, row) && !is_log_newer(row, other) {
            count += 1;
            bytes += other.estimated_bytes as i128;
        }
        i += 1;
    }
    assert(rows@.take(i as int) =~= rows@);
    count as u128 <= LOG_PARTITION_ROW_LIMIT as u128 && bytes <= LOG_PARTITION_SIZE_LIMIT_BYTES as i128
}

fn touches(all: &Vec<StoredLog>, from: usize, row: &StoredLog) -> (r: bool)
    requires
        from <= all@.len(),
    ensures
        r == is_touched(all@.skip(from as int), *row),
{
    let ghost added = all@.skip(from as int);
    let mut i: usize = from;
    while i < all.len()
        invariant
            from <= i <= all@.len(),
            added == all@.skip(from as int),
            forall|j: int| 0 <= j < i - from ==> !same_partition(#[trigger] added[j], *row),
        decreases all@.len() - i,
    {
        assert(added[i - from] == all@[i as int]);
        if is_same_partition(&all[i], row) {
            return true;
        }
        i += 1;
    }
    false
}

/// Drops the logs whose flag is not set.
fn retain_flagged(rows: &mut Vec<StoredLog>, flags: &Vec<bool>, Ghost(keep): Ghost<spec_fn(StoredLog) -> bool>)
    requires
        flags@.len() == old(rows)@.len(),
        forall|i: int| 0 <= i < flags@.len() ==> #[trigger] flags@[i] == keep(old(rows)@[i]),
    ensures
        final(rows)@ == old(rows)@.filter(keep),
{
    let ghost start = rows@;
    let mut i: usize = rows.len();
    assert(start.take(i as int) + start.skip(i as int).filter(keep) =~= start) by {
        reveal(Seq::filter);
        assert(start.skip(i as int) =~= Seq::<StoredLog>::empty());
    }
    while i > 0
        invariant
            i <= start.len(),
            flags@.len() == start.len(),
            rows@ == start.take(i as int) + start.skip(i as int).filter(keep),
            forall|j: int| 0 <= j < start.len() ==> #[trigger] flags@[j] == keep(start[j]),
        decreases i,
    {
        i -= 1;
        let ghost one = seq![start[i as int]];
        let ghost rest = start.skip(i + 1);
        proof {
            assert(start.skip(i as int) =~= one + rest);
            Seq::filter_distributes_over_add(one, rest, keep);
            reveal(Seq::filter);
            assert(one.drop_last() =~= Seq::<StoredLog>::empty());
            assert(one.drop_last().filter(keep) =~= Seq::<StoredLog>::empty());
            assert(one.last() == start[i as int]);
        }
        if !flags[i] {
            rows.remove(i);
            assert(rows@ =~= start.take(i as int) + rest.filter(keep));
            assert(start.skip(i as int).filter(keep) =~= rest.filter(keep));
        } else {
            assert(start.skip(i as int).filter(keep) =~= one + rest.filter(keep));
            assert(rows@ =~= start.take(i as int) + start.skip(i as int).filter(keep));
        }
    }
    assert(start.skip(0) =~= start);
    assert(rows@ =~= start.filter(keep));
}

/// Drops what exceeds the limits, `all` being the logs before and, from position `from` on, the
/// logs just recorded.
fn prune_partitions(all: &mut Vec<StoredLog>, from: usize)
    requires
        from <= old(all)@.len(),
    ensures
        final(all)@ == old(all)@.filter(|row: StoredLog| stays(old(all)@, old(all)@.skip(from as int), row)),
{
    let ghost start = all@;
    let ghost added = start.skip(from as int);
    let ghost kept = |row: StoredLog| stays(start, added, row);
    let mut flags: Vec<bool> = Vec::new();
    let size: usize = all.len();
    let mut i: usize = 0;
    while i < size
        invariant
            i <= size,
            size == start.len(),
            all@ == start,
            from <= size,
            added == start.skip(from as int),
            flags@.len() == i,
            forall|j: int| 0 <= j < i ==> #[trigger] flags@[j] == stays(start, added, start[j]),
        decreases size - i,
    {
        let stay = !touches(all, from, &all[i]) || is_within_limits(all, &all[i]);
        flags.push(stay);
        i += 1;
    }
    retain_flagged(all, &flags, Ghost(kept));
}

/// Leaving out rows keeps the identifiers in order.
pub proof fn lemma_filter_in_id_order(rows: Seq<StoredLog>, last_id: i64, keep: spec_fn(StoredLog) -> bool)
    requires
        in_id_order(rows, last_id),
    ensures
        in_id_order(rows.filter(keep), last_id),
    decreases rows.len(),
{
    reveal(Seq::filter);
    if rows.len() > 0 {
        let front = rows.drop_last();
        assert forall|i: int, j: int| #![trigger front[i], front[j]] 0 <= i < j < front.len() implies front[i].id < front[j].id by {
            assert(rows[i].id < rows[j].id);
        }
        assert forall|i: int| 0 <= i < front.len() implies 0 < (#[trigger] front[i]).id <= last_id && 0 <= front[i].estimated_bytes by {
            assert(rows[i] == front[i]);
        }
        lemma_filter_in_id_order(front, last_id, keep);
        let kept = front.filter(keep);
        assert forall|i: int| 0 <= i < kept.len() implies #[trigger] kept[i].id < rows.last().id by {
            assert(kept.contains(kept[i]));
            front.lemma_filter_contains_rev(keep, kept[i]);
            let k = choose|k: int| 0 <= k < front.len() && front[k] == kept[i];
            assert(rows[k].id < rows[rows.len() - 1].id);
        }
    }
}

pub proof fn lemma_numbered_in_id_order(rows: Seq<StoredLog>, last_id: i64, entries: Seq<LogEntry>)
    requires
        0 <= last_id,
        in_id_order(rows, last_id),
        last_id + entries.len() <= i64::MAX,
        forall|i: int| 0 <= i < entries.len() ==> log_bytes(#[trigger] entries[i]) <= i64::MAX,
    ensures
        in_id_order(rows + numbered(entries, last_id), (last_id + entries.len()) as i64),
{
    let added = numbered(entries, last_id);
    let all = rows + added;
    assert forall|i: int| 0 <= i < all.len() implies {
        &&& 0 < (#[trigger] all[i]).id <= last_id + entries.len()
        &&& 0 <= all[i].estimated_bytes
        &&& i >= rows.len() ==> all[i].id == last_id + 1 + (i - rows.len())
    } by {
        if i < rows.len() {
            assert(all[i] == rows[i]);
        } else {
            assert(all[i] == added[i - rows.len()]);
            assert(log_bytes(entries[i - rows.len()]) <= i64::MAX);
        }
    }
    assert forall|i: int, j: int| #![trigger all[i], all[j]] 0 <= i < j < all.len() implies all[i].id < all[j].id by {
        if j < rows.len() {
            assert(rows[i].id < rows[j].id);
        } else if i < rows.len() {
            assert(all[i] == rows[i]);
        }
    }
}

fn recordable_entries(backend: RuntimeStateBackend, entries: &[LogEntry], canonical_thread_ids: &[String]) -> (kept: Vec<LogEntry>)
    ensures
        kept@ == recordable(backend, entries@, canonical_thread_ids@),
{
    let ghost canonical = |entry: LogEntry| is_canonical(entry, canonical_thread_ids@);
    let shared = matches!(backend, RuntimeStateBackend::Postgresql);
    let mut kept: Vec<LogEntry> = Vec::new();
    let mut i: usize = 0;
    assert(entries@.take(0).filter(canonical) =~= Seq::empty()) by {
        reveal(Seq::filter);
    }
    while i < entries.len()
        invariant
            i <= entries@.len(),
            canonical == (|entry: LogEntry| is_canonical(entry, canonical_thread_ids@)),
            kept@ == if shared {
                entries@.take(i as int).filter(canonical)
            } else {
                entries@.take(i as int)
            },
        decreases entries@.len() - i,
    {
        proof {
            reveal(Seq::filter);
            assert(entries@.take(i + 1).drop_last() =~= entries@.take(i as int));
            assert(entries@.take(i + 1) =~= entries@.take(i as int).push(entries@[i as int]));
        }
        let entry = &entries[i];
        let known = match &entry.thread_id {
            Some(thread_id) => !shared || has_text(canonical_thread_ids, thread_id.as_str()),
            None => true,
        };
        if known {
            kept.push(entry.clone());
        }
        i += 1;
    }
    assert(entries@.take(i as int) =~= entries@);
    kept
}

impl LogStore {
    /// Records one log.
    pub fn insert_log(&mut self, entry: &LogEntry, canonical_thread_ids: &[String]) -> (result: Result<(), LogStoreError>)
        ensures
            (final(self)@, result) == inserting(old(self)@, seq![*entry], canonical_thread_ids@),
    {
        let mut entries: Vec<LogEntry> = Vec::new();
        entries.push(entry.clone());
        assert(entries@ =~= seq![*entry]);
        self.insert_logs(entries.as_slice(), canonical_thread_ids)
    }

    /// Records logs, and drops what exceeds the limits of their partitions. In a shared database
    /// the logs of threads that do not exist are left out.
    pub fn insert_logs(&mut self, entries: &[LogEntry], canonical_thread_ids: &[String]) -> (result: Result<(), LogStoreError>)
        ensures
            (final(self)@, result) == inserting(old(self)@, entries@, canonical_thread_ids@),
    {
        proof {
            use_type_invariant(&*self);
        }
        if entries.len() == 0 {
            return Ok(());
        }
        if self.closed {
            return Err(LogStoreError::Closed);
        }
        let kept = recordable_entries(self.backend, entries, canonical_thread_ids);
        if kept.len() == 0 {
            return Err(LogStoreError::NoCanonicalThread);
        }
        let mut i: usize = 0;
        while i < kept.len()
            invariant
                self@ == old(self)@,
                !self@.closed,
                kept@ == recordable(old(self)@.backend, entries@, canonical_thread_ids@),
                entries@.len() > 0,
                kept@.len() > 0,
                i <= kept@.len(),
                forall|j: int| 0 <= j < i ==> log_bytes(#[trigger] kept@[j]) <= i64::MAX,
            decreases kept@.len() - i,
        {
            if !has_countable_size(&kept[i]) {
                return Err(LogStoreError::EntryTooLarge);
            }
            i += 1;
        }
        let count: usize = kept.len();
        if count as u128 > (i64::MAX - self.last_id) as u128 {
            return Err(LogStoreError::IdentifiersExhausted);
        }
        let last_id: i64 = self.last_id;
        let ghost before = self@.rows;
        let ghost added = numbered(kept@, last_id);
        let mut rows: Vec<StoredLog> = Vec::new();
        std::mem::swap(&mut rows, &mut self.rows);
        let from: usize = rows.len();
        let mut k: usize = 0;
        while k < count
            invariant
                k <= count,
                count == kept@.len(),
                0 <= last_id,
                last_id + count <= i64::MAX,
                added == numbered(kept@, last_id),
                rows@ == before + added.take(k as int),
                forall|j: int| 0 <= j < count ==> log_bytes(#[trigger] kept@[j]) <= i64::MAX,
            decreases count - k,
        {
            rows.push(store_log(&kept[k], last_id + 1 + k as i64));
            assert(added.take(k + 1) =~= added.take(k as int).push(added[k as int]));
            assert(rows@ =~= before + added.take(k + 1));
            k += 1;
        }
        proof {
            assert(rows@ =~= before + added);
            assert(rows@.skip(from as int) =~= added);
            lemma_numbered_in_id_order(before, last_id, kept@);
            let all = before + added;
            lemma_filter_in_id_order(all, (last_id + count) as i64, |row: StoredLog| stays(all, added, row));
        }
        prune_partitions(&mut rows, from);
        self.last_id = last_id + count as i64;
        self.rows = rows;
        assert(self@ =~= with_logs(old(self)@, kept@));
        Ok(())
    }

    /// Drops the logs of a thread.
    pub fn delete_logs_for_thread(&mut self, thread_id: &str) -> (result: Result<(), LogStoreError>)
        ensures
            match result {
                Ok(_) => {
                    &&& !old(self)@.closed
                    &&& final(self)@ == (LogStoreView {
                        rows: old(self)@.rows.filter(|row: StoredLog| opt_view(row.thread_id) != Some(thread_id@)),
                        ..old(self)@
                    })
                },
                Err(error) => old(self)@.closed && error == LogStoreError::Closed && final(self)@ == old(self)@,
            },
    {
        proof {
            use_type_invariant(&*self);
        }
        if self.closed {
            return Err(LogStoreError::Closed);
        }
        let ghost keep = |row: StoredLog| opt_view(row.thread_id) != Some(thread_id@);
        let mut rows: Vec<StoredLog> = Vec::new();
        std::mem::swap(&mut rows, &mut self.rows);
        let ghost before = rows@;
        let mut flags: Vec<bool> = Vec::new();
        let size: usize = rows.len();
        let mut i: usize = 0;
        while i < size
            invariant
                i <= size,
                size == before.len(),
                rows@ == before,
                keep == (|row: StoredLog| opt_view(row.thread_id) != Some(thread_id@)),
                flags@.len() == i,
                forall|j: int| 0 <= j < i ==> #[trigger] flags@[j] == keep(before[j]),
            decreases size - i,
        {
            flags.push(!is_text(&rows[i].thread_id, thread_id));
            i += 1;
        }
        retain_flagged(&mut rows, &flags, Ghost(keep));
        proof {
            lemma_filter_in_id_order(before, self.last_id, keep);
        }
        self.rows = rows;
        Ok(())
    }

    /// Drops the logs older than the time for which logs are kept.
    pub fn run_startup_maintenance(&mut self) -> (result: Result<(), LogStoreError>)
        ensures
            exists|now: i64| (final(self)@, result) == #[trigger] maintaining(old(self)@, now),
    {
        let millis: i64 = now_millis();
        let now: i64 = whole_seconds_of(millis);
        let result = self.run_startup_maintenance_at(now);
        assert((self@, result) == maintaining(old(self)@, now));
        result
    }

    /// Drops the logs older than the time for which logs are kept, `now` being the time in
    /// seconds.
    pub fn run_startup_maintenance_at(&mut self, now: i64) -> (result: Result<(), LogStoreError>)
        ensures
            (final(self)@, result) == maintaining(old(self)@, now),
    {
        proof {
            use_type_invariant(&*self);
        }
        let cutoff: i64 = match now.checked_sub(LOG_RETENTION_DAYS * 86400) {
            Some(cutoff) => cutoff,
            None => return Ok(()),
        };
        if self.closed {
            return Err(LogStoreError::Closed);
        }
        let ghost keep = |row: StoredLog| row.ts >= cutoff;
        let mut rows: Vec<StoredLog> = Vec::new();
        std::mem::swap(&mut rows, &mut self.rows);
        let ghost before = rows@;
        let mut flags: Vec<bool> = Vec::new();
        let size: usize = rows.len();
        let mut i: usize = 0;
        while i < size
            invariant
                i <= size,
                size == before.len(),
                rows@ == before,
                keep == (|row: StoredLog| row.ts >= cutoff),
                flags@.len() == i,
                forall|j: int| 0 <= j < i ==> #[trigger] flags@[j] == keep(before[j]),
            decreases size - i,
        {
            flags.push(rows[i].ts >= cutoff);
            i += 1;
        }
        retain_flagged(&mut rows, &flags, Ghost(keep));
        proof {
            lemma_filter_in_id_order(before, self.last_id, keep);
        }
        self.rows = rows;
        Ok(())
    }
}

/// The store without the logs that are too old at `now`.
pub open spec fn maintained(store: LogStoreView, now: i64) -> LogStoreView {
    let cutoff = now - LOG_RETENTION_DAYS * 86400;
    if cutoff < i64::MIN {
        store
    } else {
        LogStoreView { rows: store.rows.filter(|row: StoredLog| row.ts >= cutoff), ..store }
    }
}

/// What dropping the logs that are too old at `now` leads to.
pub open spec fn maintaining(store: LogStoreView, now: i64) -> (LogStoreView, Result<(), LogStoreError>) {
    if store.closed && now - LOG_RETENTION_DAYS * 86400 >= i64::MIN {
        (store, Err(LogStoreError::Closed))
    } else {
        (maintained(store, now), Ok(()))
    }
}

} // verus!
