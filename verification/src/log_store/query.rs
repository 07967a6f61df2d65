//! Filtered reads of the logs.

use super::like::is_like_part;
use super::like::like_part;
use super::LogQuery;
use super::LogRow;
use super::LogStore;
use super::LogStoreError;
use super::LogStoreView;
use super::StoredLog;
use crate::backend::RuntimeStateBackend;
use crate::text::ascii_upper;
use crate::text::ascii_uppercase;
use crate::text::chars_of;
use crate::text::contains_text;
use crate::text::has_part;
use crate::text::has_text;
use crate::text::holds_text;
use crate::threads::clone_text;
use vstd::prelude::*;

verus! {

/// The text in ASCII upper case.
pub open spec fn upper_text(text: Seq<char>) -> Seq<char> {
    Seq::new(text.len(), |i: int| ascii_upper(text[i]))
}

/// One of `levels` is `level` in upper case; without `levels` every level is.
pub open spec fn has_level(levels: Seq<String>, level: Seq<char>) -> bool {
    levels.len() == 0 || holds_text(levels, upper_text(level))
}

/// One of `filters` occurs in `text`; without filters every text will do, even none.
pub open spec fn is_like_any(filters: Seq<String>, text: Option<String>, escapes: bool) -> bool {
    filters.len() == 0 || text is Some && exists|i: int| 0 <= i < filters.len() && like_part(text->0@, #[trigger] filters[i]@, escapes)
}

/// The log is of a wanted thread, or of none where those are wanted.
pub open spec fn has_wanted_thread(query: LogQuery, row: StoredLog) -> bool {
    ||| query.thread_ids@.len() == 0 && !query.include_threadless
    ||| row.thread_id is Some && holds_text(query.thread_ids@, row.thread_id->0@)
    ||| row.thread_id is None && query.include_threadless
}

/// The wanted text occurs in the body, an absent body being empty.
pub open spec fn has_searched_text(search: Option<String>, body: Option<String>) -> bool {
    search is Some ==> has_part(
        if body is Some {
            body->0@
        } else {
            Seq::empty()
        },
        search->0@,
    )
}

/// In the patterns of a shared database a backslash escapes the next character.
pub open spec fn escapes_patterns(backend: RuntimeStateBackend) -> bool {
    backend is Postgresql
}

/// The log is wanted.
pub open spec fn log_matches(backend: RuntimeStateBackend, query: LogQuery, row: StoredLog) -> bool {
    &&& has_level(query.levels_upper@, row.level@)
    &&& query.from_ts is Some ==> row.ts >= query.from_ts->0
    &&& query.to_ts is Some ==> row.ts <= query.to_ts->0
    &&& is_like_any(query.module_like@, row.module, escapes_patterns(backend))
    &&& is_like_any(query.file_like@, row.file, escapes_patterns(backend))
    &&& has_wanted_thread(query, row)
    &&& query.after_id is Some ==> row.id > query.after_id->0
    &&& has_searched_text(query.search, row.body)
}

/// A log as read back.
pub open spec fn log_row(row: StoredLog) -> LogRow {
    LogRow {
        id: row.id,
        ts: row.ts,
        ts_nanos: row.ts_nanos,
        level: row.level,
        target: row.target,
        message: row.body,
        thread_id: row.thread_id,
        process_uuid: row.process_uuid,
        file: row.file,
        line: row.line,
    }
}

/// The wanted logs, oldest identifier first.
pub open spec fn matching_logs(store: LogStoreView, query: LogQuery) -> Seq<StoredLog> {
    store.rows.filter(|row: StoredLog| log_matches(store.backend, query, row))
}

/// The wanted logs in the wanted order, cut to the limit.
pub open spec fn queried_logs(store: LogStoreView, query: LogQuery) -> Seq<StoredLog> {
    let matching = matching_logs(store, query);
    let ordered = if query.descending {
        matching.reverse()
    } else {
        matching
    };
    match query.limit {
        Some(limit) if limit < ordered.len() => ordered.take(limit as int),
        _ => ordered,
    }
}

/// Whether `levels` holds `level` in upper case.
fn is_wanted_level(levels: &Vec<String>, level: &str) -> (r: bool)
    ensures
        r == has_level(levels@, level@),
{
    if levels.len() == 0 {
        return true;
    }
    let chars = chars_of(level);
    let ghost upper = upper_text(level@);
    let mut i: usize = 0;
    while i < levels.len()
        invariant
            i <= levels@.len(),
            chars@ == level@,
            upper == upper_text(level@),
            forall|j: int| 0 <= j < i ==> #[trigger] levels@[j]@ != upper,
        decreases levels@.len() - i,
    {
        if is_upper_of(levels[i].as_str(), &chars) {
            return true;
        }
        i += 1;
    }
    false
}

fn is_upper_of(upper: &str, chars: &Vec<char>) -> (r: bool)
    ensures
        r == (upper@ == upper_text(chars@)),
{
    let wanted = chars_of(upper);
    if wanted.len() != chars.len() {
        return false;
    }
    let mut i: usize = 0;
    while i < wanted.len()
        invariant
            i <= wanted@.len(),
            wanted@ == upper@,
            wanted@.len() == chars@.len(),
            forall|j: int| 0 <= j < i ==> #[trigger] wanted@[j] == ascii_upper(chars@[j]),
        decreases wanted@.len() - i,
    {
        if wanted[i] != ascii_uppercase(chars[i]) {
            assert(upper@[i as int] != upper_text(chars@)[i as int]);
            return false;
        }
        i += 1;
    }
    assert(upper@ =~= upper_text(chars@));
    true
}

fn is_any_like(filters: &Vec<String>, text: &Option<String>, escapes: bool) -> (r: bool)
    ensures
        r == is_like_any(filters@, *text, escapes),
{
    if filters.len() == 0 {
        return true;
    }
    let inner = match text {
        Some(inner) => inner,
        None => return false,
    };
    let mut i: usize = 0;
    while i < filters.len()
        invariant
            i <= filters@.len(),
            filters@.len() > 0,
            *text == Some(*inner),
            forall|j: int| 0 <= j < i ==> !like_part(inner@, #[trigger] filters@[j]@, escapes),
        decreases filters@.len() - i,
    {
        if is_like_part(inner.as_str(), filters[i].as_str(), escapes) {
            return true;
        }
        i += 1;
    }
    false
}

fn is_wanted_thread(query: &LogQuery, row: &StoredLog) -> (r: bool)
    ensures
        r == has_wanted_thread(*query, *row),
{
    if query.thread_ids.len() == 0 && !query.include_threadless {
        return true;
    }
    match &row.thread_id {
        Some(thread_id) => has_text(query.thread_ids.as_slice(), thread_id.as_str()),
        None => query.include_threadless,
    }
}

fn is_searched(search: &Option<String>, body: &Option<String>) -> (r: bool)
    ensures
        r == has_searched_text(*search, *body),
{
    match search {
        None => true,
        Some(search) => match body {
            Some(body) => contains_text(body.as_str(), search.as_str()),
            None => {
                let empty = String::new();
                contains_text(empty.as_str(), search.as_str())
            },
        },
    }
}

fn is_match(backend: RuntimeStateBackend, query: &LogQuery, row: &StoredLog) -> (r: bool)
    ensures
        r == log_matches(backend, *query, *row),
{
    let escapes = matches!(backend, RuntimeStateBackend::Postgresql);
    if !is_wanted_level(&query.levels_upper, row.level.as_str()) {
        return false;
    }
    if let Some(from_ts) = query.from_ts {
        if row.ts < from_ts {
            return false;
        }
    }
    if let Some(to_ts) = query.to_ts {
        if row.ts > to_ts {
            return false;
        }
    }
    if !is_any_like(&query.module_like, &row.module, escapes) || !is_any_like(&query.file_like, &row.file, escapes) {
        return false;
    }
    if !is_wanted_thread(query, row) {
        return false;
    }
    if let Some(after_id) = query.after_id {
        if row.id <= after_id {
            return false;
        }
    }
    is_searched(&query.search, &row.body)
}

fn read_row(row: &StoredLog) -> (read: LogRow)
    ensures
        read == log_row(*row),
{
    LogRow {
        id: row.id,
        ts: row.ts,
        ts_nanos: row.ts_nanos,
        level: row.level.clone(),
        target: row.target.clone(),
        message: clone_text(&row.body),
        thread_id: clone_text(&row.thread_id),
        process_uuid: clone_text(&row.process_uuid),
        file: clone_text(&row.file),
        line: row.line,
    }
}

/// The rows at the given positions.
pub open spec fn rows_at(rows: Seq<StoredLog>, positions: Seq<usize>) -> Seq<StoredLog> {
    Seq::new(positions.len(), |i: int| rows[positions[i] as int])
}

/// `id` is the greatest identifier of the given logs; 0 if there is none.
pub open spec fn is_greatest_id(rows: Seq<StoredLog>, id: i64) -> bool {
    if rows.len() == 0 {
        id == 0
    } else {
        &&& forall|i: int| 0 <= i < rows.len() ==> #[trigger] rows[i].id <= id
        &&& exists|i: int| 0 <= i < rows.len() && #[trigger] rows[i].id == id
    }
}

impl LogStore {
    /// Positions of the wanted logs.
    fn matching_positions(&self, query: &LogQuery) -> (positions: Vec<usize>)
        ensures
            forall|i: int| 0 <= i < positions@.len() ==> #[trigger] positions@[i] < self@.rows.len(),
            rows_at(self@.rows, positions@) == matching_logs(self@, *query),
    {
        let ghost wanted = |row: StoredLog| log_matches(self@.backend, *query, row);
        let mut positions: Vec<usize> = Vec::new();
        let mut i: usize = 0;
        assert(self@.rows.take(0).filter(wanted) =~= Seq::empty()) by {
            reveal(Seq::filter);
        }
        assert(rows_at(self@.rows, positions@) =~= Seq::empty());
        while i < self.rows.len()
            invariant
                i <= self@.rows.len(),
                self@.rows == self.rows@,
                self@.backend == self.backend,
                wanted == (|row: StoredLog| log_matches(self@.backend, *query, row)),
                forall|k: int| 0 <= k < positions@.len() ==> #[trigger] positions@[k] < i,
                rows_at(self@.rows, positions@) == self@.rows.take(i as int).filter(wanted),
            decreases self@.rows.len() - i,
        {
            proof {
                reveal(Seq::filter);
                assert(self@.rows.take(i + 1).drop_last() =~= self@.rows.take(i as int));
            }
            let ghost before = rows_at(self@.rows, positions@);
            if is_match(self.backend, query, &self.rows[i]) {
                positions.push(i);
                assert(rows_at(self@.rows, positions@) =~= before.push(self@.rows[i as int]));
            }
            i += 1;
        }
        assert(self@.rows.take(i as int) =~= self@.rows);
        positions
    }

    /// The wanted logs.
    pub fn query_logs(&self, query: &LogQuery) -> (result: Result<Vec<LogRow>, LogStoreError>)
        ensures
            match result {
                Ok(rows) => !self@.closed && rows@ == queried_logs(self@, *query).map_values(|row: StoredLog| log_row(row)),
                Err(error) => self@.closed && error == LogStoreError::Closed,
            },
    {
        if self.closed {
            return Err(LogStoreError::Closed);
        }
        let positions = self.matching_positions(query);
        let count: usize = positions.len();
        let wanted: usize = match query.limit {
            Some(limit) if limit < count => limit,
            _ => count,
        };
        let ghost queried = queried_logs(self@, *query);
        let ghost expected = queried.map_values(|row: StoredLog| log_row(row));
        let ghost matching = matching_logs(self@, *query);
        assert(queried.len() == wanted);
        let mut rows: Vec<LogRow> = Vec::new();
        let mut i: usize = 0;
        while i < wanted
            invariant
                i <= wanted <= count,
                count == positions@.len(),
                self@.rows == self.rows@,
                matching == rows_at(self@.rows, positions@),
                forall|k: int| 0 <= k < positions@.len() ==> #[trigger] positions@[k] < self@.rows.len(),
                expected.len() == wanted,
                expected == queried.map_values(|row: StoredLog| log_row(row)),
                forall|k: int| 0 <= k < wanted ==> #[trigger] queried[k] == if query.descending {
                    matching[count - 1 - k]
                } else {
                    matching[k]
                },
                rows@ == expected.take(i as int),
            decreases wanted - i,
        {
            let at: usize = if query.descending {
                positions[count - 1 - i]
            } else {
                positions[i]
            };
            assert(queried[i as int] == self@.rows[at as int]);
            rows.push(read_row(&self.rows[at]));
            assert(expected.take(i + 1) =~= expected.take(i as int).push(expected[i as int]));
            i += 1;
        }
        assert(expected.take(wanted as int) =~= expected);
        Ok(rows)
    }

    /// The greatest identifier of a wanted log; 0 if there is none.
    pub fn max_log_id(&self, query: &LogQuery) -> (result: Result<i64, LogStoreError>)
        ensures
            match result {
                Ok(id) => !self@.closed && is_greatest_id(matching_logs(self@, *query), id),
                Err(error) => self@.closed && error == LogStoreError::Closed,
            },
    {
        if self.closed {
            return Err(LogStoreError::Closed);
        }
        proof {
            use_type_invariant(self);
        }
        let positions = self.matching_positions(query);
        let count: usize = positions.len();
        let ghost matching = matching_logs(self@, *query);
        if count == 0 {
            return Ok(0);
        }
        let last: usize = positions[count - 1];
        proof {
            super::insert::lemma_filter_in_id_order(self.rows@, self.last_id, |row: StoredLog| log_matches(self@.backend, *query, row));
            assert(matching[count - 1] == self@.rows[last as int]);
        }
        Ok(self.rows[last].id)
    }
}

} // verus!
