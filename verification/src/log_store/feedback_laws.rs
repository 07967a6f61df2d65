//! Laws of the text sent with feedback.

use super::feedback::feedback_line;
use super::feedback::feedback_lines;
use super::feedback::feedback_rows;
use super::feedback::is_feedback;
use super::feedback::is_feedback_text;
use super::feedback::is_latest_at;
use super::feedback::is_latest_process;
use super::feedback::is_newest_first;
use super::feedback::joined_backwards;
use super::feedback::names_process;
use super::feedback::reads_feedback;
use super::feedback::rfc3339_micros;
use super::record_laws::written_after;
use super::LogStore;
use super::LogStoreError;
use super::StoredLog;
use crate::sequences::lemma_filter_members;
use crate::text::zero_padded;
use vstd::prelude::*;
use vstd::utf8::encode_utf8;

verus! {

/// The line for a log is its time, its level filled up to five characters from the left, and its text,
/// each behind a space. It ends with one line break of its own, unless the text brought one.
pub proof fn law_line_holds_time_level_and_text(timestamp: Option<String>, ts: i64, ts_nanos: i64, level: &str, body: &str, line: String)
    requires
        call_ensures(super::feedback::format_timed_log_line, (timestamp, ts, ts_nanos, level, body), line),
        timestamp is Some,
    ensures
        ({
            let filling = Seq::new((if level@.len() < 5 { 5 - level@.len() } else { 0 }) as nat, |i: int| ' ');
            let ending = if body@.len() > 0 && body@[body@.len() - 1] == '\n' {
                Seq::<char>::empty()
            } else {
                seq!['\n']
            };
            line@ == timestamp->0@ + seq![' '] + filling + level@ + seq![' '] + body@ + ending
        }),
        line@[line@.len() - 1] == '\n',
{
    let filling = Seq::new((if level@.len() < 5 { 5 - level@.len() } else { 0 }) as nat, |i: int| ' ');
    let ending = if body@.len() > 0 && body@[body@.len() - 1] == '\n' {
        Seq::<char>::empty()
    } else {
        seq!['\n']
    };
    let start = timestamp->0@ + seq![' '] + crate::text::right_aligned(level@, 5) + seq![' '];
    assert(crate::text::right_aligned(level@, 5) =~= filling + level@);
    assert((start + body@).last() == if body@.len() > 0 {
        body@[body@.len() - 1]
    } else {
        ' '
    });
    assert(line@ =~= timestamp->0@ + seq![' '] + filling + level@ + seq![' '] + body@ + ending);
}

/// A line starts with the time of the log, down to its nanoseconds where they are in range, or else to the
/// second. A time that has no text is given in numbers.
pub proof fn law_line_starts_with_the_time(ts: i64, ts_nanos: i64, level: &str, body: &str, line: String)
    requires
        call_ensures(super::format_feedback_log_line, (ts, ts_nanos, level, body), line),
    ensures
        ({
            let nanos: u32 = if 0 <= ts_nanos <= u32::MAX {
                ts_nanos as u32
            } else {
                0
            };
            let time = rfc3339_micros(ts, nanos);
            &&& time is Some ==> (time->0 + seq![' ']).is_prefix_of(line@)
            &&& time is None ==> (zero_padded(ts as int, 0) + seq!['.'] + zero_padded(ts_nanos as int, 9) + seq!['Z', ' ']).is_prefix_of(line@)
            &&& time is Some <==> -8_334_601_228_800 <= ts <= 8_210_266_876_799 && (nanos < 1_000_000_000 || nanos < 2_000_000_000 && ts % 60 == 59)
            &&& line@[line@.len() - 1] == '\n'
        }),
{
    let nanos: u32 = if 0 <= ts_nanos <= u32::MAX {
        ts_nanos as u32
    } else {
        0
    };
    let time = rfc3339_micros(ts, nanos);
    let start = match time {
        Some(text) => text + seq![' '],
        None => zero_padded(ts as int, 0) + seq!['.'] + zero_padded(ts_nanos as int, 9) + seq!['Z', ' '],
    };
    if time is None {
        assert(zero_padded(ts as int, 0) + seq!['.'] + zero_padded(ts_nanos as int, 9) + seq!['Z'] + seq![' '] =~= start);
    }
    assert(start =~= line@.subrange(0, start.len() as int));
}

/// Position `i` holds the log of thread `thread_id` that was written last of those that name a process.
pub open spec fn is_last_of_thread(rows: Seq<StoredLog>, thread_id: Seq<char>, i: int) -> bool {
    &&& 0 <= i < rows.len()
    &&& rows[i].thread_id is Some
    &&& rows[i].thread_id->0@ == thread_id
    &&& rows[i].process_uuid is Some
    &&& forall|j: int|
        0 <= j < rows.len() && (#[trigger] rows[j]).thread_id is Some && rows[j].thread_id->0@ == thread_id && rows[j].process_uuid is Some ==> !written_after(rows[j], rows[i])
}

/// The log has text and is of one of the threads or, without a thread, of the process that one of them ran
/// in last.
pub open spec fn goes_along(rows: Seq<StoredLog>, thread_ids: Seq<String>, row: StoredLog) -> bool {
    &&& row.body is Some
    &&& row.thread_id is Some ==> exists|k: int| 0 <= k < thread_ids.len() && #[trigger] thread_ids[k]@ == row.thread_id->0@
    &&& row.thread_id is None ==> row.process_uuid is Some && exists|k: int, i: int|
        0 <= k < thread_ids.len() && #[trigger] is_last_of_thread(rows, thread_ids[k]@, i) && rows[i].process_uuid->0@ == row.process_uuid->0@
}

proof fn lemma_goes_along(rows: Seq<StoredLog>, thread_ids: Seq<String>, row: StoredLog)
    ensures
        goes_along(rows, thread_ids, row) <==> is_feedback(rows, thread_ids, row),
{
    assert forall|thread_id: Seq<char>, i: int| is_last_of_thread(rows, thread_id, i) <==> is_latest_at(rows, thread_id, i) by {
        if is_latest_at(rows, thread_id, i) {
            assert forall|j: int| 0 <= j < rows.len() && (#[trigger] rows[j]).thread_id is Some && rows[j].thread_id->0@ == thread_id && rows[j].process_uuid is Some implies !written_after(
                rows[j],
                rows[i],
            ) by {
                assert(names_process(rows[j], thread_id));
            }
        }
        if is_last_of_thread(rows, thread_id, i) {
            assert forall|j: int| 0 <= j < rows.len() && names_process(#[trigger] rows[j], thread_id) implies !super::insert::is_newer(rows[j], rows[i]) by {
                assert(!written_after(rows[j], rows[i]));
            }
        }
    }
    if row.thread_id is None && row.process_uuid is Some {
        if goes_along(rows, thread_ids, row) {
            let (k, i) = choose|k: int, i: int|
                0 <= k < thread_ids.len() && #[trigger] is_last_of_thread(rows, thread_ids[k]@, i) && rows[i].process_uuid->0@ == row.process_uuid->0@;
            assert(is_latest_at(rows, thread_ids[k]@, i));
            assert(is_latest_process(rows, thread_ids[k]@, row.process_uuid->0@));
        }
        if is_feedback(rows, thread_ids, row) {
            let k = choose|k: int| 0 <= k < thread_ids.len() && is_latest_process(rows, #[trigger] thread_ids[k]@, row.process_uuid->0@);
            let i = choose|i: int| #[trigger] is_latest_at(rows, thread_ids[k]@, i) && rows[i].process_uuid->0@ == row.process_uuid->0@;
            assert(is_last_of_thread(rows, thread_ids[k]@, i));
        }
    }
}

/// The lines of the logs, one behind the other.
pub open spec fn lines_in_turn(rows: Seq<StoredLog>) -> Seq<char>
    decreases rows.len(),
{
    if rows.len() == 0 {
        Seq::empty()
    } else {
        feedback_line(rows[0].ts, rows[0].ts_nanos, rows[0].level@, rows[0].body->0@) + lines_in_turn(rows.skip(1))
    }
}

proof fn lemma_lines_push(rows: Seq<StoredLog>, row: StoredLog)
    ensures
        lines_in_turn(rows.push(row)) == lines_in_turn(rows) + feedback_line(row.ts, row.ts_nanos, row.level@, row.body->0@),
    decreases rows.len(),
{
    let longer = rows.push(row);
    let line = feedback_line(row.ts, row.ts_nanos, row.level@, row.body->0@);
    if rows.len() == 0 {
        assert(longer.skip(1) =~= Seq::empty());
        assert(lines_in_turn(longer.skip(1)) =~= Seq::empty());
        assert(lines_in_turn(longer) =~= line);
        assert(lines_in_turn(rows) + line =~= line);
    } else {
        lemma_lines_push(rows.skip(1), row);
        assert(longer.skip(1) =~= rows.skip(1).push(row));
        assert(longer[0] == rows[0]);
        assert(lines_in_turn(longer) =~= lines_in_turn(rows) + line);
    }
}

/// How many of the logs, newest first, have their lines in the text.
proof fn lemma_shown(sorted: Seq<StoredLog>, estimate: int, used: int) -> (n: int)
    requires
        forall|i: int| 0 <= i < sorted.len() ==> 0 <= (#[trigger] sorted[i]).estimated_bytes,
        0 <= estimate,
        0 <= used,
    ensures
        0 <= n <= sorted.len(),
        joined_backwards(feedback_lines(sorted, estimate, used)) == lines_in_turn(sorted.take(n).reverse()),
        feedback_lines(sorted, estimate, used).len() == n,
        estimate > 10485760 ==> n == 0,
        estimate + sizes(sorted) <= 10485760 && used + line_sizes(sorted) <= 10485760 ==> n == sorted.len(),
    decreases sorted.len(),
{
    if sorted.len() == 0 {
        assert(sorted.take(0).reverse() =~= Seq::empty());
        0
    } else {
        let row = sorted[0];
        let rest = sorted.skip(1);
        let total = estimate + row.estimated_bytes;
        let line = feedback_line(row.ts, row.ts_nanos, row.level@, row.body->0@);
        assert forall|i: int| 0 <= i < rest.len() implies 0 <= (#[trigger] rest[i]).estimated_bytes by {
            assert(rest[i] == sorted[i + 1]);
        }
        lemma_sizes(rest);
        if total > 10485760 {
            let n = lemma_shown(rest, total, used);
            assert(rest.take(0).reverse() =~= Seq::empty());
            assert(sorted.take(0).reverse() =~= Seq::empty());
            0
        } else if used + crate::text::byte_len(line) > 10485760 {
            assert(sorted.take(0).reverse() =~= Seq::empty());
            0
        } else {
            let lines = feedback_lines(rest, total, used + crate::text::byte_len(line));
            let n = lemma_shown(rest, total, used + crate::text::byte_len(line));
            assert((seq![line] + lines).skip(1) =~= lines);
            assert((seq![line] + lines)[0] == line);
            lemma_lines_push(rest.take(n).reverse(), row);
            assert(sorted.take(n + 1).reverse() =~= rest.take(n).reverse().push(row));
            n + 1
        }
    }
}

/// Sum of the estimated sizes.
pub open spec fn sizes(rows: Seq<StoredLog>) -> int
    decreases rows.len(),
{
    if rows.len() == 0 {
        0
    } else {
        rows[0].estimated_bytes + sizes(rows.skip(1))
    }
}

/// Bytes of all the lines.
pub open spec fn line_sizes(rows: Seq<StoredLog>) -> int
    decreases rows.len(),
{
    if rows.len() == 0 {
        0
    } else {
        encode_utf8(feedback_line(rows[0].ts, rows[0].ts_nanos, rows[0].level@, rows[0].body->0@)).len() + line_sizes(rows.skip(1))
    }
}

proof fn lemma_sizes(rows: Seq<StoredLog>)
    requires
        forall|i: int| 0 <= i < rows.len() ==> 0 <= (#[trigger] rows[i]).estimated_bytes,
    ensures
        0 <= sizes(rows),
        0 <= line_sizes(rows),
    decreases rows.len(),
{
    if rows.len() > 0 {
        let rest = rows.skip(1);
        assert forall|i: int| 0 <= i < rest.len() implies 0 <= (#[trigger] rest[i]).estimated_bytes by {
            assert(rest[i] == rows[i + 1]);
        }
        lemma_sizes(rest);
    }
}

/// The text sent with feedback holds the lines of the newest logs that go along with the threads, the one
/// written first coming first. It holds all of them where their sizes, and their lines, are no more than
/// ten mebibytes together. Of the two lists the first is that of all logs that go along, newest first, and
/// the second that of those in the text.
pub proof fn law_feedback_holds_the_newest_logs(store: &LogStore, thread_ids: &[String], bytes: Vec<u8>) -> (lists: (Seq<StoredLog>, Seq<StoredLog>))
    requires
        call_ensures(LogStore::query_feedback_logs_for_threads, (store, thread_ids), Ok::<Vec<u8>, LogStoreError>(bytes)),
        forall|i: int| 0 <= i < store@.rows.len() ==> 0 <= (#[trigger] store@.rows[i]).estimated_bytes,
    ensures
        forall|row: StoredLog| #[trigger] lists.0.contains(row) <==> store@.rows.contains(row) && goes_along(store@.rows, thread_ids@, row),
        forall|i: int, j: int| #![trigger lists.0[i], lists.0[j]] 0 <= i < j < lists.0.len() ==> written_after(lists.0[i], lists.0[j]),
        lists.1.len() <= lists.0.len(),
        lists.1.reverse() == lists.0.take(lists.1.len() as int),
        bytes@ == encode_utf8(lines_in_turn(lists.1)),
        sizes(lists.0) <= 10 * 1024 * 1024 && line_sizes(lists.0) <= 10 * 1024 * 1024 ==> lists.1.len() == lists.0.len(),
{
    let rows = store@.rows;
    let wanted = |row: StoredLog| is_feedback(rows, thread_ids@, row);
    assert(reads_feedback(store@, thread_ids@, Ok::<Vec<u8>, LogStoreError>(bytes)));
    let sorted = choose|sorted: Seq<StoredLog>| #[trigger]
        is_newest_first(feedback_rows(rows, thread_ids@), sorted) && bytes@ == encode_utf8(joined_backwards(feedback_lines(sorted, 0, 0)));
    assert forall|row: StoredLog| #[trigger] sorted.contains(row) <==> rows.contains(row) && goes_along(rows, thread_ids@, row) by {
        lemma_goes_along(rows, thread_ids@, row);
        lemma_filter_members(rows, wanted, row);
    }
    assert forall|i: int| 0 <= i < sorted.len() implies 0 <= (#[trigger] sorted[i]).estimated_bytes by {
        assert(sorted.contains(sorted[i]));
        let k = choose|k: int| 0 <= k < rows.len() && rows[k] == sorted[i];
        assert(0 <= rows[k].estimated_bytes);
    }
    let n = lemma_shown(sorted, 0, 0);
    let shown = sorted.take(n).reverse();
    assert(shown.reverse() =~= sorted.take(n));
    (sorted, shown)
}

proof fn lemma_one_order(a: Seq<StoredLog>, b: Seq<StoredLog>)
    requires
        a.len() == b.len(),
        forall|row: StoredLog| #[trigger] a.contains(row) <==> b.contains(row),
        forall|i: int, j: int| #![trigger a[i], a[j]] 0 <= i < j < a.len() ==> written_after(a[i], a[j]),
        forall|i: int, j: int| #![trigger b[i], b[j]] 0 <= i < j < b.len() ==> written_after(b[i], b[j]),
    ensures
        a == b,
    decreases a.len(),
{
    if a.len() > 0 {
        let x = a.drop_first();
        let y = b.drop_first();
        assert(a.contains(a[0]) && b.contains(b[0]));
        assert(b.contains(a[0]) && a.contains(b[0]));
        let i = choose|i: int| 0 <= i < b.len() && b[i] == a[0];
        let j = choose|j: int| 0 <= j < a.len() && a[j] == b[0];
        if i > 0 && j > 0 {
            assert(written_after(b[0], b[i]) && written_after(a[0], a[j]));
        }
        assert(a[0] == b[0]);
        assert forall|row: StoredLog| #[trigger] x.contains(row) <==> y.contains(row) by {
            if x.contains(row) {
                let k = choose|k: int| 0 <= k < x.len() && x[k] == row;
                assert(a[k + 1] == row);
                assert(a.contains(a[k + 1]));
                assert(a.contains(row));
                assert(b.contains(row));
                let m = choose|m: int| 0 <= m < b.len() && b[m] == row;
                assert(written_after(a[0], a[k + 1]));
                assert(m > 0);
                assert(y[m - 1] == row);
            }
            if y.contains(row) {
                let k = choose|k: int| 0 <= k < y.len() && y[k] == row;
                assert(b[k + 1] == row);
                assert(b.contains(b[k + 1]));
                assert(b.contains(row));
                assert(a.contains(row));
                let m = choose|m: int| 0 <= m < a.len() && a[m] == row;
                assert(written_after(b[0], b[k + 1]));
                assert(m > 0);
                assert(x[m - 1] == row);
            }
        }
        assert forall|i: int, j: int| #![trigger x[i], x[j]] 0 <= i < j < x.len() implies written_after(x[i], x[j]) by {
            assert(x[i] == a[i + 1] && x[j] == a[j + 1]);
        }
        assert forall|i: int, j: int| #![trigger y[i], y[j]] 0 <= i < j < y.len() implies written_after(y[i], y[j]) by {
            assert(y[i] == b[i + 1] && y[j] == b[j + 1]);
        }
        lemma_one_order(x, y);
        assert(a =~= seq![a[0]] + x);
        assert(b =~= seq![b[0]] + y);
    }
    assert(a =~= b);
}

pub(crate) proof fn lemma_one_text(rows: Seq<StoredLog>, thread_ids: Seq<String>, x: Seq<u8>, y: Seq<u8>)
    requires
        is_feedback_text(rows, thread_ids, x),
        is_feedback_text(rows, thread_ids, y),
    ensures
        x == y,
{
    let held = feedback_rows(rows, thread_ids);
    let a = choose|sorted: Seq<StoredLog>| #[trigger] is_newest_first(held, sorted) && x == encode_utf8(joined_backwards(feedback_lines(sorted, 0, 0)));
    let b = choose|sorted: Seq<StoredLog>| #[trigger] is_newest_first(held, sorted) && y == encode_utf8(joined_backwards(feedback_lines(sorted, 0, 0)));
    assert forall|row: StoredLog| #[trigger] a.contains(row) <==> b.contains(row) by {
        assert(a.contains(row) <==> held.contains(row));
        assert(b.contains(row) <==> held.contains(row));
    }
    lemma_one_order(a, b);
}

/// Feedback on one thread is feedback on the list of that thread alone; only a closed store refuses it.
pub proof fn law_feedback_on_one_thread(
    store: &LogStore,
    thread_id: &str,
    result: Result<Vec<u8>, LogStoreError>,
    listed: &[String],
    of_list: Result<Vec<u8>, LogStoreError>,
)
    requires
        call_ensures(LogStore::query_feedback_logs, (store, thread_id), result),
        call_ensures(LogStore::query_feedback_logs_for_threads, (store, listed), of_list),
        listed@.len() == 1,
        listed@[0]@ == thread_id@,
    ensures
        result is Err <==> store@.closed,
        of_list is Err <==> store@.closed,
        result is Ok ==> result->Ok_0@ == of_list->Ok_0@,
{
    let threads = choose|threads: Seq<String>| threads.len() == 1 && threads[0]@ == thread_id@ && #[trigger] reads_feedback(store@, threads, result);
    if result is Ok {
        let rows = store@.rows;
        assert forall|row: StoredLog| is_feedback(rows, threads, row) <==> is_feedback(rows, listed@, row) by {
            if is_feedback(rows, threads, row) {
                lemma_same_threads(rows, threads, listed@, row);
            }
            if is_feedback(rows, listed@, row) {
                lemma_same_threads(rows, listed@, threads, row);
            }
        }
        assert((|row: StoredLog| is_feedback(rows, threads, row)) =~= (|row: StoredLog| is_feedback(rows, listed@, row)));
        assert(feedback_rows(rows, threads) == feedback_rows(rows, listed@));
        assert(is_feedback_text(rows, listed@, result->Ok_0@));
        lemma_one_text(rows, listed@, result->Ok_0@, of_list->Ok_0@);
    }
}

proof fn lemma_same_threads(rows: Seq<StoredLog>, a: Seq<String>, b: Seq<String>, row: StoredLog)
    requires
        a.len() == 1,
        b.len() == 1,
        a[0]@ == b[0]@,
        is_feedback(rows, a, row),
    ensures
        is_feedback(rows, b, row),
{
    if row.thread_id is Some {
        assert(b[0]@ == row.thread_id->0@);
    } else {
        let k = choose|k: int| 0 <= k < a.len() && is_latest_process(rows, #[trigger] a[k]@, row.process_uuid->0@);
        assert(is_latest_process(rows, b[0]@, row.process_uuid->0@));
    }
}

} // verus!
