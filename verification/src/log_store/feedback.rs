//! The logs sent with feedback.

use super::insert::is_log_newer;
use super::insert::is_newer;
use super::ids_grow;
use super::LogStore;
use super::LogStoreError;
use super::LogStoreView;
use super::StoredLog;
use super::LOG_PARTITION_SIZE_LIMIT_BYTES;
use crate::text::byte_len;
use crate::text::byte_length;
use crate::text::chars_of;
use crate::text::has_text;
use crate::text::holds_text;
use crate::text::is_text;
use crate::text::push_right_aligned;
use crate::text::right_aligned;
use crate::text::same_text;
use crate::text::text_views;
use crate::text::zero_padded;
use crate::text::zero_padded_text;
use crate::thread_id::opt_view;
use crate::time::is_time;
use vstd::prelude::*;
use vstd::string::*;

verus! {

/// Name for what `chrono::DateTime::from_timestamp` followed by `to_rfc3339_opts` gives: the
/// time in UTC with microseconds, or nothing for a time out of range.
pub uninterp spec fn rfc3339_micros(seconds: i64, nanos: u32) -> Option<Seq<char>>;

/// `chrono::DateTime::<Utc>::from_timestamp`, written with `to_rfc3339_opts` in microseconds and
/// with `Z`. The text depends on the two numbers alone. There is one exactly for the times that
/// `chrono::NaiveDate` and `chrono::NaiveTime` span. How it reads is not stated.
#[verifier::external_body]
fn rfc3339_of(seconds: i64, nanos: u32) -> (text: Option<String>)
    ensures
        opt_view(text) == rfc3339_micros(seconds, nanos),
        text is Some <==> is_time(seconds, nanos),
{
    match chrono::DateTime::<chrono::Utc>::from_timestamp(seconds, nanos) {
        Some(time) => Some(time.to_rfc3339_opts(chrono::SecondsFormat::Micros, true)),
        None => None,
    }
}

/// The nanoseconds of a log; 0 if they are out of range.
pub open spec fn nanos_of(ts_nanos: i64) -> u32 {
    if 0 <= ts_nanos <= u32::MAX {
        ts_nanos as u32
    } else {
        0
    }
}

/// The line for a log, given the text of its time.
pub open spec fn timed_line(timestamp: Option<Seq<char>>, ts: i64, ts_nanos: i64, level: Seq<char>, body: Seq<char>) -> Seq<char> {
    let time = match timestamp {
        Some(text) => text,
        None => zero_padded(ts as int, 0) + seq!['.'] + zero_padded(ts_nanos as int, 9) + seq!['Z'],
    };
    let line = time + seq![' '] + right_aligned(level, 5) + seq![' '] + body;
    if line.last() == '\n' {
        line
    } else {
        line.push('\n')
    }
}

/// The line for a log.
pub open spec fn feedback_line(ts: i64, ts_nanos: i64, level: Seq<char>, body: Seq<char>) -> Seq<char> {
    timed_line(rfc3339_micros(ts, nanos_of(ts_nanos)), ts, ts_nanos, level, body)
}

/// The line for a log: its time, its level and its body, ending with a line break.
pub fn format_feedback_log_line(ts: i64, ts_nanos: i64, level: &str, feedback_log_body: &str) -> (line: String)
    ensures
        line@ == feedback_line(ts, ts_nanos, level@, feedback_log_body@),
        rfc3339_micros(ts, nanos_of(ts_nanos)) is Some <==> is_time(ts, nanos_of(ts_nanos)),
{
    let nanos: u32 = if 0 <= ts_nanos && ts_nanos <= u32::MAX as i64 {
        ts_nanos as u32
    } else {
        0
    };
    format_timed_log_line(rfc3339_of(ts, nanos), ts, ts_nanos, level, feedback_log_body)
}

/// The line for a log whose time has the given text; without one the time is given in numbers.
pub fn format_timed_log_line(timestamp: Option<String>, ts: i64, ts_nanos: i64, level: &str, feedback_log_body: &str) -> (line: String)
    ensures
        line@ == timed_line(opt_view(timestamp), ts, ts_nanos, level@, feedback_log_body@),
{
    proof {
        reveal_strlit(".");
        reveal_strlit("Z");
        reveal_strlit(" ");
        reveal_strlit("\n");
    }
    let mut line = match timestamp {
        Some(text) => text,
        None => {
            let mut text = zero_padded_text(ts, 0);
            text.append(".");
            text.append(zero_padded_text(ts_nanos, 9).as_str());
            text.append("Z");
            assert(text@ =~= zero_padded(ts as int, 0) + seq!['.'] + zero_padded(ts_nanos as int, 9) + seq!['Z']);
            text
        },
    };
    let ghost time = line@;
    line.append(" ");
    push_right_aligned(&mut line, level, 5);
    line.append(" ");
    line.append(feedback_log_body);
    let ghost whole = time + seq![' '] + right_aligned(level@, 5) + seq![' '] + feedback_log_body@;
    assert(line@ =~= whole);
    let chars = chars_of(line.as_str());
    let size: usize = chars.len();
    if chars[size - 1] != '\n' {
        line.append("\n");
        assert(line@ =~= whole.push('\n'));
    }
    line
}

/// The process of the newest log of the thread that names one.
pub open spec fn is_latest_process(rows: Seq<StoredLog>, thread_id: Seq<char>, process_uuid: Seq<char>) -> bool {
    exists|i: int| #[trigger] is_latest_at(rows, thread_id, i) && rows[i].process_uuid->0@ == process_uuid
}

/// The `i`-th log is the newest of the thread that names a process.
pub open spec fn is_latest_at(rows: Seq<StoredLog>, thread_id: Seq<char>, i: int) -> bool {
    &&& 0 <= i < rows.len()
    &&& names_process(rows[i], thread_id)
    &&& forall|j: int| 0 <= j < rows.len() && names_process(#[trigger] rows[j], thread_id) ==> !is_newer(rows[j], rows[i])
}

pub open spec fn names_process(row: StoredLog, thread_id: Seq<char>) -> bool {
    opt_view(row.thread_id) == Some(thread_id) && row.process_uuid is Some
}

/// The log goes with feedback on the given threads: it has a body, and it is of one of the
/// threads or, without a thread, of the latest process of one of them.
pub open spec fn is_feedback(rows: Seq<StoredLog>, thread_ids: Seq<String>, row: StoredLog) -> bool {
    &&& row.body is Some
    &&& {
        ||| row.thread_id is Some && holds_text(thread_ids, row.thread_id->0@)
        ||| row.thread_id is None && row.process_uuid is Some && exists|k: int|
            0 <= k < thread_ids.len() && is_latest_process(rows, #[trigger] thread_ids[k]@, row.process_uuid->0@)
    }
}

/// The logs that go with feedback, oldest identifier first.
pub open spec fn feedback_rows(rows: Seq<StoredLog>, thread_ids: Seq<String>) -> Seq<StoredLog> {
    rows.filter(|row: StoredLog| is_feedback(rows, thread_ids, row))
}

/// `sorted` holds the logs of `rows`, newest first.
pub open spec fn is_newest_first(rows: Seq<StoredLog>, sorted: Seq<StoredLog>) -> bool {
    &&& sorted.len() == rows.len()
    &&& forall|row: StoredLog| #[trigger] sorted.contains(row) <==> rows.contains(row)
    &&& forall|i: int, j: int| #![trigger sorted[i], sorted[j]] 0 <= i < j < sorted.len() ==> is_newer(sorted[i], sorted[j])
}

/// The lines for the newest logs that fit in the limit, newest first, where `estimate` bytes are
/// estimated and `used` bytes are used before.
pub open spec fn feedback_lines(sorted: Seq<StoredLog>, estimate: int, used: int) -> Seq<Seq<char>>
    decreases sorted.len(),
{
    if sorted.len() == 0 {
        Seq::empty()
    } else {
        let row = sorted[0];
        let total = estimate + row.estimated_bytes;
        let line = feedback_line(row.ts, row.ts_nanos, row.level@, row.body->0@);
        if total > LOG_PARTITION_SIZE_LIMIT_BYTES {
            feedback_lines(sorted.skip(1), total, used)
        } else if used + byte_len(line) > LOG_PARTITION_SIZE_LIMIT_BYTES {
            Seq::empty()
        } else {
            seq![line] + feedback_lines(sorted.skip(1), total, used + byte_len(line))
        }
    }
}

/// The lines put together, last line first.
pub open spec fn joined_backwards(lines: Seq<Seq<char>>) -> Seq<char>
    decreases lines.len(),
{
    if lines.len() == 0 {
        Seq::empty()
    } else {
        joined_backwards(lines.skip(1)) + lines[0]
    }
}

/// The text that goes with feedback on the given threads.
pub open spec fn is_feedback_text(rows: Seq<StoredLog>, thread_ids: Seq<String>, bytes: Seq<u8>) -> bool {
    exists|sorted: Seq<StoredLog>| #[trigger]
        is_newest_first(feedback_rows(rows, thread_ids), sorted) && bytes == vstd::utf8::encode_utf8(joined_backwards(feedback_lines(sorted, 0, 0)))
}

/// Position of the newest log of the thread that names a process.
fn latest_process(rows: &Vec<StoredLog>, thread_id: &str) -> (found: Option<usize>)
    ensures
        match found {
            Some(i) => is_latest_at(rows@, thread_id@, i as int),
            None => forall|i: int| 0 <= i < rows@.len() ==> !names_process(#[trigger] rows@[i], thread_id@),
        },
{
    let mut found: Option<usize> = None;
    let mut i: usize = 0;
    while i < rows.len()
        invariant
            i <= rows@.len(),
            match found {
                Some(k) => {
                    &&& k < i
                    &&& names_process(rows@[k as int], thread_id@)
                    &&& forall|j: int| 0 <= j < i && names_process(#[trigger] rows@[j], thread_id@) ==> !is_newer(rows@[j], rows@[k as int])
                },
                None => forall|j: int| 0 <= j < i ==> !names_process(#[trigger] rows@[j], thread_id@),
            },
        decreases rows@.len() - i,
    {
        if is_text(&rows[i].thread_id, thread_id) && rows[i].process_uuid.is_some() {
            let newer = match found {
                Some(k) => is_log_newer(&rows[i], &rows[k]),
                None => true,
            };
            if newer {
                found = Some(i);
            }
        }
        i += 1;
    }
    found
}

/// Whether some thread of the list has `process_uuid` as its latest process.
fn is_latest_of_any(rows: &Vec<StoredLog>, thread_ids: &[String], process_uuid: &str) -> (r: bool)
    requires
        ids_grow(rows@),
    ensures
        r == exists|k: int| 0 <= k < thread_ids@.len() && is_latest_process(rows@, #[trigger] thread_ids@[k]@, process_uuid@),
{
    let mut k: usize = 0;
    while k < thread_ids.len()
        invariant
            k <= thread_ids@.len(),
            ids_grow(rows@),
            forall|j: int| 0 <= j < k ==> !is_latest_process(rows@, #[trigger] thread_ids@[j]@, process_uuid@),
        decreases thread_ids@.len() - k,
    {
        let ghost thread = thread_ids@[k as int]@;
        match latest_process(rows, thread_ids[k].as_str()) {
            Some(i) => {
                match &rows[i].process_uuid {
                    Some(latest) => {
                        if same_text(latest.as_str(), process_uuid) {
                            assert(is_latest_process(rows@, thread, process_uuid@));
                            return true;
                        }
                    },
                    None => {},
                }
                proof {
                    if is_latest_process(rows@, thread, process_uuid@) {
                        let other = choose|j: int| #[trigger] is_latest_at(rows@, thread, j) && rows@[j].process_uuid->0@ == process_uuid@;
                        assert(names_process(rows@[other], thread));
                        assert(names_process(rows@[i as int], thread));
                        assert(!is_newer(rows@[other], rows@[i as int]) && !is_newer(rows@[i as int], rows@[other]));
                        assert(other == i);
                    }
                }
            },
            None => {},
        }
        k += 1;
    }
    false
}

fn goes_with_feedback(rows: &Vec<StoredLog>, thread_ids: &[String], row: &StoredLog) -> (r: bool)
    requires
        ids_grow(rows@),
    ensures
        r == is_feedback(rows@, thread_ids@, *row),
{
    if row.body.is_none() {
        return false;
    }
    match &row.thread_id {
        Some(thread_id) => has_text(thread_ids, thread_id.as_str()),
        None => match &row.process_uuid {
            Some(process_uuid) => is_latest_of_any(rows, thread_ids, process_uuid.as_str()),
            None => false,
        },
    }
}

/// Puts `row` into the logs that are newest first.
fn insert_by_age(sorted: &mut Vec<StoredLog>, row: StoredLog)
    requires
        newest_first(old(sorted)@),
        forall|i: int| 0 <= i < old(sorted)@.len() ==> #[trigger] old(sorted)@[i].id != row.id,
    ensures
        newest_first(final(sorted)@),
        final(sorted)@.len() == old(sorted)@.len() + 1,
        forall|other: StoredLog| #[trigger] final(sorted)@.contains(other) <==> old(sorted)@.contains(other) || other == row,
{
    let ghost before = sorted@;
    let mut at: usize = 0;
    while at < sorted.len() && is_log_newer(&sorted[at], &row)
        invariant
            sorted@ == before,
            at <= before.len(),
            forall|i: int| 0 <= i < at ==> is_newer(#[trigger] before[i], row),
        decreases before.len() - at,
    {
        at += 1;
    }
    sorted.insert(at, row);
    proof {
        let after = sorted@;
        assert(after =~= before.take(at as int) + seq![row] + before.skip(at as int));
        assert forall|i: int| at < i < after.len() implies is_newer(row, #[trigger] after[i]) by {
            assert(after[i] == before[i - 1]);
            assert(!is_newer(before[at as int], row));
            assert(is_newer(row, before[at as int]));
            if i - 1 > at {
                assert(is_newer(before[at as int], before[i - 1]));
            }
        }
        assert forall|i: int, j: int| #![trigger after[i], after[j]] 0 <= i < j < after.len() implies is_newer(after[i], after[j]) by {
            if j < at {
                assert(is_newer(before[i], before[j]));
            } else if j == at {
                assert(is_newer(before[i], row));
            } else if i < at {
                assert(is_newer(before[i], before[j - 1]));
            } else if i > at {
                assert(is_newer(before[i - 1], before[j - 1]));
            }
        }
        assert forall|other: StoredLog| #[trigger] after.contains(other) <==> before.contains(other) || other == row by {
            if after.contains(other) {
                let i = choose|i: int| 0 <= i < after.len() && after[i] == other;
                if i < at {
                    assert(before[i] == other);
                } else if i > at {
                    assert(before[i - 1] == other);
                }
            }
            if before.contains(other) {
                let i = choose|i: int| 0 <= i < before.len() && before[i] == other;
                if i < at {
                    assert(after[i] == other);
                } else {
                    assert(after[i + 1] == other);
                }
            }
            if other == row {
                assert(after[at as int] == other);
            }
        }
    }
}

/// Each log is newer than those after it.
pub open spec fn newest_first(sorted: Seq<StoredLog>) -> bool {
    forall|i: int, j: int| #![trigger sorted[i], sorted[j]] 0 <= i < j < sorted.len() ==> is_newer(sorted[i], sorted[j])
}

/// The lines for the newest logs that fit.
fn fitting_lines(sorted: &Vec<StoredLog>) -> (lines: Vec<String>)
    requires
        forall|i: int| 0 <= i < sorted@.len() ==> (#[trigger] sorted@[i]).body is Some,
    ensures
        text_views(lines@) == feedback_lines(sorted@, 0, 0),
{
    let limit: usize = 10485760;
    let mut lines: Vec<String> = Vec::new();
    let mut estimate: i128 = 0;
    let mut used: usize = 0;
    let mut i: usize = 0;
    let ghost all = feedback_lines(sorted@, 0, 0);
    assert(sorted@.skip(0) =~= sorted@);
    assert(text_views(lines@) =~= Seq::empty());
    assert(text_views(lines@) + all =~= all);
    while i < sorted.len()
        invariant
            i <= sorted@.len(),
            limit == LOG_PARTITION_SIZE_LIMIT_BYTES,
            used <= limit,
            -(i * 0x8000_0000_0000_0000) <= estimate <= i * 0x8000_0000_0000_0000,
            forall|k: int| 0 <= k < sorted@.len() ==> (#[trigger] sorted@[k]).body is Some,
            all == feedback_lines(sorted@, 0, 0),
            text_views(lines@) + feedback_lines(sorted@.skip(i as int), estimate as int, used as int) == all,
        decreases sorted@.len() - i,
    {
        let ghost rest = sorted@.skip(i as int);
        let ghost before = text_views(lines@);
        assert(rest.skip(1) =~= sorted@.skip(i + 1));
        let row = &sorted[i];
        assert(rest[0] == *row);
        estimate += row.estimated_bytes as i128;
        i += 1;
        if estimate <= LOG_PARTITION_SIZE_LIMIT_BYTES as i128 {
            let line = match &row.body {
                Some(body) => format_feedback_log_line(row.ts, row.ts_nanos, row.level.as_str(), body.as_str()),
                None => String::new(),
            };
            let size: usize = byte_length(line.as_str());
            if size > limit - used {
                assert(before + feedback_lines(rest, (estimate - row.estimated_bytes) as int, used as int) =~= before);
                return lines;
            }
            used += size;
            let ghost text = line@;
            lines.push(line);
            proof {
                assert(text_views(lines@) =~= before.push(text));
                let tail = feedback_lines(sorted@.skip(i as int), estimate as int, used as int);
                assert(before.push(text) + tail =~= before + (seq![text] + tail));
            }
        }
    }
    assert(text_views(lines@) + feedback_lines(sorted@.skip(i as int), estimate as int, used as int) =~= text_views(lines@));
    lines
}

/// The lines put together, last line first.
fn join_backwards(lines: &Vec<String>) -> (text: String)
    ensures
        text@ == joined_backwards(text_views(lines@)),
{
    let mut text = String::new();
    let ghost all = text_views(lines@);
    let mut i: usize = lines.len();
    assert(joined_backwards(all.skip(i as int)) =~= Seq::<char>::empty());
    while i > 0
        invariant
            i <= lines@.len(),
            all == text_views(lines@),
            text@ == joined_backwards(all.skip(i as int)),
        decreases i,
    {
        i -= 1;
        text.append(lines[i].as_str());
        proof {
            let rest = all.skip(i as int);
            assert(rest.skip(1) =~= all.skip(i + 1));
            assert(rest[0] == lines@[i as int]@);
        }
    }
    assert(all.skip(0) =~= all);
    text
}

/// What reading the text that goes with feedback returns.
pub open spec fn reads_feedback(store: LogStoreView, thread_ids: Seq<String>, result: Result<Vec<u8>, LogStoreError>) -> bool {
    match result {
        Ok(bytes) => !(store.closed && thread_ids.len() > 0) && is_feedback_text(store.rows, thread_ids, bytes@),
        Err(error) => store.closed && thread_ids.len() > 0 && error == LogStoreError::Closed,
    }
}

impl LogStore {
    /// The text of the logs that go with feedback on a thread.
    pub fn query_feedback_logs(&self, thread_id: &str) -> (result: Result<Vec<u8>, LogStoreError>)
        ensures
            exists|threads: Seq<String>|
                threads.len() == 1 && threads[0]@ == thread_id@ && #[trigger] reads_feedback(self@, threads, result),
    {
        let mut threads: Vec<String> = Vec::new();
        threads.push(thread_id.to_owned());
        let result = self.query_feedback_logs_for_threads(threads.as_slice());
        assert(threads@.len() == 1 && threads@[0]@ == thread_id@ && reads_feedback(self@, threads@, result));
        result
    }

    /// The text of the logs that go with feedback on the given threads, oldest first: the newest
    /// logs that fit in the limit, one per line.
    pub fn query_feedback_logs_for_threads(&self, thread_ids: &[String]) -> (result: Result<Vec<u8>, LogStoreError>)
        ensures
            reads_feedback(self@, thread_ids@, result),
    {
        if thread_ids.len() > 0 && self.closed {
            return Err(LogStoreError::Closed);
        }
        proof {
            use_type_invariant(self);
        }
        let ghost wanted = |row: StoredLog| is_feedback(self@.rows, thread_ids@, row);
        let mut sorted: Vec<StoredLog> = Vec::new();
        let mut i: usize = 0;
        assert(self@.rows.take(0).filter(wanted) =~= Seq::empty()) by {
            reveal(Seq::filter);
        }
        while i < self.rows.len()
            invariant
                i <= self@.rows.len(),
                self@.rows == self.rows@,
                ids_grow(self@.rows),
                wanted == (|row: StoredLog| is_feedback(self@.rows, thread_ids@, row)),
                is_newest_first(self@.rows.take(i as int).filter(wanted), sorted@),
                newest_first(sorted@),
                forall|k: int| 0 <= k < sorted@.len() ==> (#[trigger] sorted@[k]).body is Some,
            decreases self@.rows.len() - i,
        {
            let ghost front = self@.rows.take(i as int);
            proof {
                reveal(Seq::filter);
                assert(self@.rows.take(i + 1).drop_last() =~= front);
            }
            let row = &self.rows[i];
            if goes_with_feedback(&self.rows, thread_ids, row) {
                let ghost before = sorted@;
                let ghost held = front.filter(wanted);
                proof {
                    assert forall|k: int| 0 <= k < before.len() implies #[trigger] before[k].id != row.id by {
                        assert(before.contains(before[k]));
                        assert(held.contains(before[k]));
                        front.lemma_filter_contains_rev(wanted, before[k]);
                        let at = choose|at: int| 0 <= at < front.len() && front[at] == before[k];
                        assert(self@.rows[at].id < self@.rows[i as int].id);
                    }
                }
                insert_by_age(&mut sorted, row.clone());
                proof {
                    let after = held.push(*row);
                    assert forall|other: StoredLog| #[trigger] sorted@.contains(other) <==> after.contains(other) by {
                        if held.contains(other) {
                            let k = choose|k: int| 0 <= k < held.len() && held[k] == other;
                            assert(after[k] == other);
                        }
                        if other == *row {
                            assert(after[held.len() as int] == other);
                        }
                        if after.contains(other) {
                            let k = choose|k: int| 0 <= k < after.len() && after[k] == other;
                            if k < held.len() {
                                assert(held[k] == other);
                            }
                        }
                    }
                    assert forall|k: int| 0 <= k < sorted@.len() implies (#[trigger] sorted@[k]).body is Some by {
                        assert(sorted@.contains(sorted@[k]));
                        if before.contains(sorted@[k]) {
                            let at = choose|at: int| 0 <= at < before.len() && before[at] == sorted@[k];
                            assert(before[at].body is Some);
                        }
                    }
                }
            }
            i += 1;
        }
        assert(self@.rows.take(i as int) =~= self@.rows);
        let lines = fitting_lines(&sorted);
        let text = join_backwards(&lines);
        let bytes = text.as_str().as_bytes_vec();
        assert(is_newest_first(feedback_rows(self@.rows, thread_ids@), sorted@));
        Ok(bytes)
    }
}

} // verus!
