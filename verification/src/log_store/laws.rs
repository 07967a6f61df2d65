//! Laws of the log store: bounded partitions, growing identifiers, bounded feedback.

use super::feedback::feedback_line;
use super::feedback::feedback_lines;
use super::feedback::is_feedback_text;
use super::feedback::is_newest_first;
use super::feedback::joined_backwards;
use super::in_id_order;
use super::insert::inserting;
use super::insert::is_newer;
use super::insert::is_touched;
use super::insert::lemma_filter_in_id_order;
use super::insert::lemma_numbered_in_id_order;
use super::insert::maintained;
use super::insert::numbered;
use super::insert::recordable;
use super::insert::same_partition;
use super::insert::stays;
use super::insert::total_bytes;
use super::insert::within_limits;
use super::query::log_matches;
use super::query::matching_logs;
use super::LogEntry;
use super::LogQuery;
use super::LogStoreError;
use super::LogStoreView;
use super::StoredLog;
use super::LOG_PARTITION_ROW_LIMIT;
use super::LOG_PARTITION_SIZE_LIMIT_BYTES;
use crate::text::byte_len;
use vstd::prelude::*;
use vstd::utf8::encode_utf8;

verus! {

/// The logs in the partition of `row`.
pub open spec fn partition(rows: Seq<StoredLog>, row: StoredLog) -> Seq<StoredLog> {
    rows.filter(|other: StoredLog| same_partition(other, row))
}

proof fn lemma_filters(rows: Seq<StoredLog>, small: spec_fn(StoredLog) -> bool, large: spec_fn(StoredLog) -> bool)
    requires
        forall|i: int| 0 <= i < rows.len() && small(#[trigger] rows[i]) ==> large(rows[i]),
        forall|i: int| 0 <= i < rows.len() ==> 0 <= (#[trigger] rows[i]).estimated_bytes,
    ensures
        rows.filter(small).len() <= rows.filter(large).len(),
        total_bytes(rows.filter(small)) <= total_bytes(rows.filter(large)),
    decreases rows.len(),
{
    reveal(Seq::filter);
    if rows.len() > 0 {
        let front = rows.drop_last();
        assert forall|i: int| 0 <= i < front.len() && small(#[trigger] front[i]) implies large(front[i]) by {
            assert(front[i] == rows[i]);
        }
        assert forall|i: int| 0 <= i < front.len() implies 0 <= (#[trigger] front[i]).estimated_bytes by {
            assert(front[i] == rows[i]);
        }
        lemma_filters(front, small, large);
        let row = rows[rows.len() - 1];
        assert(front.filter(small).push(row).drop_last() =~= front.filter(small));
        assert(front.filter(large).push(row).drop_last() =~= front.filter(large));
    }
}

proof fn lemma_filter_twice(rows: Seq<StoredLog>, first: spec_fn(StoredLog) -> bool, second: spec_fn(StoredLog) -> bool)
    ensures
        rows.filter(first).filter(second) == rows.filter(|row: StoredLog| first(row) && second(row)),
    decreases rows.len(),
{
    reveal(Seq::filter);
    if rows.len() > 0 {
        lemma_filter_twice(rows.drop_last(), first, second);
        let held = rows.drop_last().filter(first);
        assert(held.push(rows.last()).drop_last() =~= held);
    }
}

/// Position of the oldest log.
proof fn lemma_oldest(rows: Seq<StoredLog>) -> (oldest: int)
    requires
        rows.len() > 0,
    ensures
        0 <= oldest < rows.len(),
        forall|i: int| 0 <= i < rows.len() ==> !is_newer(rows[oldest], #[trigger] rows[i]),
    decreases rows.len(),
{
    if rows.len() == 1 {
        0
    } else {
        let front = rows.drop_last();
        let found = lemma_oldest(front);
        let last = rows.len() - 1;
        assert forall|i: int| 0 <= i < front.len() implies !is_newer(rows[found], #[trigger] rows[i]) by {
            assert(front[i] == rows[i]);
        }
        if is_newer(rows[found], rows[last]) {
            last
        } else {
            found
        }
    }
}

/// Once logs have been recorded, the partition of each of them is within its limits.
pub proof fn law_partitions_stay_bounded(
    store: LogStoreView,
    entries: Seq<LogEntry>,
    canonical_thread_ids: Seq<String>,
    row: StoredLog,
)
    requires
        0 <= store.last_id,
        in_id_order(store.rows, store.last_id),
        inserting(store, entries, canonical_thread_ids).1 == Ok::<(), LogStoreError>(()),
        is_touched(numbered(recordable(store.backend, entries, canonical_thread_ids), store.last_id), row),
    ensures
        ({
            let after = inserting(store, entries, canonical_thread_ids).0;
            &&& partition(after.rows, row).len() <= LOG_PARTITION_ROW_LIMIT
            &&& total_bytes(partition(after.rows, row)) <= LOG_PARTITION_SIZE_LIMIT_BYTES
        }),
{
    let kept = recordable(store.backend, entries, canonical_thread_ids);
    let added = numbered(kept, store.last_id);
    let all = store.rows + added;
    let keep = |other: StoredLog| stays(all, added, other);
    let own = |other: StoredLog| same_partition(other, row);
    let after = all.filter(keep);
    if entries.len() == 0 {
        reveal(Seq::filter);
        assert(kept.len() == 0);
    }
    lemma_numbered_in_id_order(store.rows, store.last_id, kept);
    let held = partition(after, row);
    let both = |other: StoredLog| keep(other) && own(other);
    lemma_filter_twice(all, keep, own);
    assert(held == all.filter(both));
    if held.len() > 0 {
        let at = lemma_oldest(held);
        let oldest = held[at];
        assert(held.contains(oldest));
        all.lemma_filter_contains_rev(both, oldest);
        assert(is_touched(added, oldest)) by {
            let i = choose|i: int| 0 <= i < added.len() && same_partition(#[trigger] added[i], row);
            assert(same_partition(added[i], oldest));
        }
        assert(within_limits(all, oldest));
        let newer = |other: StoredLog| same_partition(other, oldest) && !is_newer(oldest, other);
        assert forall|i: int| 0 <= i < all.len() && both(#[trigger] all[i]) implies newer(all[i]) by {
            all.lemma_filter_contains(both, i);
            let k = choose|k: int| 0 <= k < held.len() && held[k] == all[i];
            assert(!is_newer(held[at], held[k]));
        }
        lemma_filters(all, both, newer);
    } else {
        assert(total_bytes(held) == 0);
    }
}

/// Recording logs drops a log only where it exceeds the limits of a partition just written to.
pub proof fn law_logs_within_limits_stay(
    store: LogStoreView,
    entries: Seq<LogEntry>,
    canonical_thread_ids: Seq<String>,
    row: StoredLog,
)
    requires
        entries.len() > 0,
        inserting(store, entries, canonical_thread_ids).1 == Ok::<(), LogStoreError>(()),
    ensures
        ({
            let added = numbered(recordable(store.backend, entries, canonical_thread_ids), store.last_id);
            let all = store.rows + added;
            let after = inserting(store, entries, canonical_thread_ids).0;
            after.rows.contains(row) <==> all.contains(row) && (is_touched(added, row) ==> within_limits(all, row))
        }),
{
    let added = numbered(recordable(store.backend, entries, canonical_thread_ids), store.last_id);
    let all = store.rows + added;
    let keep = |other: StoredLog| stays(all, added, other);
    let after = all.filter(keep);
    if after.contains(row) {
        all.lemma_filter_contains_rev(keep, row);
    }
    if all.contains(row) && keep(row) {
        let i = choose|i: int| 0 <= i < all.len() && all[i] == row;
        all.lemma_filter_contains(keep, i);
    }
}

/// Identifiers are never given out twice: those of new logs follow all that were given out.
pub proof fn law_identifiers_grow(store: LogStoreView, entries: Seq<LogEntry>, canonical_thread_ids: Seq<String>)
    requires
        0 <= store.last_id,
        in_id_order(store.rows, store.last_id),
    ensures
        ({
            let after = inserting(store, entries, canonical_thread_ids).0;
            &&& 0 <= after.last_id
            &&& in_id_order(after.rows, after.last_id)
            &&& store.last_id <= after.last_id
            &&& forall|i: int| 0 <= i < after.rows.len() ==> (#[trigger] after.rows[i]).id > store.last_id || store.rows.contains(after.rows[i])
        }),
{
    let (after, result) = inserting(store, entries, canonical_thread_ids);
    if result is Ok && entries.len() > 0 {
        let kept = recordable(store.backend, entries, canonical_thread_ids);
        let added = numbered(kept, store.last_id);
        let all = store.rows + added;
        let keep = |other: StoredLog| stays(all, added, other);
        lemma_numbered_in_id_order(store.rows, store.last_id, kept);
        lemma_filter_in_id_order(all, after.last_id, keep);
        assert forall|i: int| 0 <= i < after.rows.len() implies (#[trigger] after.rows[i]).id > store.last_id || store.rows.contains(after.rows[i]) by {
            assert(after.rows.contains(after.rows[i]));
            all.lemma_filter_contains_rev(keep, after.rows[i]);
            let k = choose|k: int| 0 <= k < all.len() && all[k] == after.rows[i];
            if k < store.rows.len() {
                assert(store.rows[k] == after.rows[i]);
            } else {
                assert(all[k] == added[k - store.rows.len()]);
            }
        }
    } else {
        assert forall|i: int| 0 <= i < after.rows.len() implies (#[trigger] after.rows[i]).id > store.last_id || store.rows.contains(after.rows[i]) by {
        }
    }
}

/// The query without conditions reads every log, in the order of the identifiers.
pub proof fn law_empty_query_reads_everything(store: LogStoreView, query: LogQuery)
    requires
        query.levels_upper@.len() == 0,
        query.from_ts is None,
        query.to_ts is None,
        query.module_like@.len() == 0,
        query.file_like@.len() == 0,
        query.thread_ids@.len() == 0,
        query.search is None,
        !query.include_threadless,
        query.after_id is None,
    ensures
        matching_logs(store, query) == store.rows,
{
    lemma_filter_all(store.rows, |row: StoredLog| log_matches(store.backend, query, row));
}

proof fn lemma_filter_all(rows: Seq<StoredLog>, keep: spec_fn(StoredLog) -> bool)
    requires
        forall|row: StoredLog| #[trigger] keep(row),
    ensures
        rows.filter(keep) == rows,
    decreases rows.len(),
{
    reveal(Seq::filter);
    if rows.len() > 0 {
        lemma_filter_all(rows.drop_last(), keep);
        assert(keep(rows.last()));
        assert(rows.drop_last().push(rows.last()) =~= rows);
    } else {
        assert(rows.filter(keep) =~= rows);
    }
}

/// Maintenance keeps what is young enough, and repeating it changes nothing.
pub proof fn law_maintenance_is_idempotent(store: LogStoreView, now: i64)
    ensures
        maintained(maintained(store, now), now) == maintained(store, now),
{
    let cutoff = now - super::LOG_RETENTION_DAYS * 86400;
    let keep = |row: StoredLog| row.ts >= cutoff;
    lemma_filter_twice(store.rows, keep, keep);
    assert((|row: StoredLog| keep(row) && keep(row)) =~= keep);
}

proof fn lemma_encode_concat(a: Seq<char>, b: Seq<char>)
    ensures
        encode_utf8(a + b) == encode_utf8(a) + encode_utf8(b),
    decreases a.len(),
{
    if a.len() == 0 {
        assert(a + b =~= b);
        assert(encode_utf8(a) =~= Seq::<u8>::empty());
        assert(encode_utf8(a) + encode_utf8(b) =~= encode_utf8(b));
    } else {
        lemma_encode_concat(a.drop_first(), b);
        assert((a + b).drop_first() =~= a.drop_first() + b);
        assert((a + b)[0] == a[0]);
        assert(encode_utf8(a + b) =~= encode_utf8(a) + encode_utf8(b));
    }
}

proof fn lemma_lines_fit(sorted: Seq<StoredLog>, estimate: int, used: int)
    requires
        0 <= used <= LOG_PARTITION_SIZE_LIMIT_BYTES,
    ensures
        byte_len(joined_backwards(feedback_lines(sorted, estimate, used))) + used <= LOG_PARTITION_SIZE_LIMIT_BYTES,
    decreases sorted.len(),
{
    if sorted.len() == 0 {
        assert(byte_len(Seq::<char>::empty()) == 0);
    } else {
        let row = sorted[0];
        let total = estimate + row.estimated_bytes;
        let line = feedback_line(row.ts, row.ts_nanos, row.level@, row.body->0@);
        if total > LOG_PARTITION_SIZE_LIMIT_BYTES {
            lemma_lines_fit(sorted.skip(1), total, used);
        } else if used + byte_len(line) > LOG_PARTITION_SIZE_LIMIT_BYTES {
            assert(byte_len(Seq::<char>::empty()) == 0);
        } else {
            let rest = feedback_lines(sorted.skip(1), total, used + byte_len(line));
            lemma_lines_fit(sorted.skip(1), total, used + byte_len(line));
            let lines = seq![line] + rest;
            assert(lines.skip(1) =~= rest);
            assert(lines[0] == line);
            lemma_encode_concat(joined_backwards(rest), line);
        }
    }
}

/// The text that goes with feedback never exceeds the limit of a partition.
pub proof fn law_feedback_is_bounded(rows: Seq<StoredLog>, thread_ids: Seq<String>, bytes: Seq<u8>)
    requires
        is_feedback_text(rows, thread_ids, bytes),
    ensures
        bytes.len() <= LOG_PARTITION_SIZE_LIMIT_BYTES,
{
    let sorted = choose|sorted: Seq<StoredLog>| #[trigger]
        is_newest_first(super::feedback::feedback_rows(rows, thread_ids), sorted) && bytes == encode_utf8(joined_backwards(feedback_lines(sorted, 0, 0)));
    lemma_lines_fit(sorted, 0, 0);
}

} // verus!
