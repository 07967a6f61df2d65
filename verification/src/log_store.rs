//! Runtime logs: partitions of bounded size, filtered reads, and the text sent with feedback.

pub mod feedback;
pub mod feedback_laws;
pub mod insert;
pub mod laws;
pub mod like;
pub mod query;
pub mod query_laws;
pub mod record_laws;

pub use feedback::feedback_line;
pub use feedback::format_feedback_log_line;
pub use insert::estimated_log_bytes;
pub use insert::has_countable_size;
pub use insert::log_bytes;
pub use like::is_like_part;
pub use like::like;
pub use like::like_part;
pub use like::like_tokens;
pub use like::LikeToken;
pub use query::log_matches;

use crate::backend::RuntimeStateBackend;
use crate::text::copy_texts;
use crate::threads::clone_text;
use vstd::prelude::*;

verus! {

/// Days for which a log is kept.
pub const LOG_RETENTION_DAYS: i64 = 10;

/// Most bytes that the logs of one partition may take.
pub const LOG_PARTITION_SIZE_LIMIT_BYTES: i64 = 10485760;

/// Most logs that one partition may hold.
pub const LOG_PARTITION_ROW_LIMIT: i64 = 1000;

/// A log to be recorded.
#[derive(Debug, PartialEq, Eq)]
pub struct LogEntry {
    pub ts: i64,
    pub ts_nanos: i64,
    pub level: String,
    pub target: String,
    pub message: Option<String>,
    pub feedback_log_body: Option<String>,
    pub thread_id: Option<String>,
    pub process_uuid: Option<String>,
    pub module: Option<String>,
    pub file: Option<String>,
    pub line: Option<i64>,
}

impl Clone for LogEntry {
    fn clone(&self) -> (copy: Self)
        ensures
            copy == *self,
    {
        LogEntry {
            ts: self.ts,
            ts_nanos: self.ts_nanos,
            level: self.level.clone(),
            target: self.target.clone(),
            message: clone_text(&self.message),
            feedback_log_body: clone_text(&self.feedback_log_body),
            thread_id: clone_text(&self.thread_id),
            process_uuid: clone_text(&self.process_uuid),
            module: clone_text(&self.module),
            file: clone_text(&self.file),
            line: self.line,
        }
    }
}

/// A recorded log, as read back.
#[derive(Debug, PartialEq, Eq)]
pub struct LogRow {
    pub id: i64,
    pub ts: i64,
    pub ts_nanos: i64,
    pub level: String,
    pub target: String,
    pub message: Option<String>,
    pub thread_id: Option<String>,
    pub process_uuid: Option<String>,
    pub file: Option<String>,
    pub line: Option<i64>,
}

/// Which logs to read.
#[derive(Debug, PartialEq, Eq)]
pub struct LogQuery {
    pub levels_upper: Vec<String>,
    pub from_ts: Option<i64>,
    pub to_ts: Option<i64>,
    pub module_like: Vec<String>,
    pub file_like: Vec<String>,
    pub thread_ids: Vec<String>,
    pub search: Option<String>,
    pub include_threadless: bool,
    pub after_id: Option<i64>,
    pub limit: Option<usize>,
    pub descending: bool,
}

impl Clone for LogQuery {
    fn clone(&self) -> (copy: Self)
        ensures
            copy.levels_upper@ == self.levels_upper@,
            copy.from_ts == self.from_ts,
            copy.to_ts == self.to_ts,
            copy.module_like@ == self.module_like@,
            copy.file_like@ == self.file_like@,
            copy.thread_ids@ == self.thread_ids@,
            copy.search == self.search,
            copy.include_threadless == self.include_threadless,
            copy.after_id == self.after_id,
            copy.limit == self.limit,
            copy.descending == self.descending,
    {
        LogQuery {
            levels_upper: copy_texts(&self.levels_upper),
            from_ts: self.from_ts,
            to_ts: self.to_ts,
            module_like: copy_texts(&self.module_like),
            file_like: copy_texts(&self.file_like),
            thread_ids: copy_texts(&self.thread_ids),
            search: clone_text(&self.search),
            include_threadless: self.include_threadless,
            after_id: self.after_id,
            limit: self.limit,
            descending: self.descending,
        }
    }
}

impl Default for LogQuery {
    /// The query that every log satisfies.
    fn default() -> (query: Self)
        ensures
            query.levels_upper@.len() == 0,
            query.from_ts is None,
            query.to_ts is None,
            query.module_like@.len() == 0,
            query.file_like@.len() == 0,
            query.thread_ids@.len() == 0,
            query.search is None,
            !query.include_threadless,
            query.after_id is None,
            query.limit is None,
            !query.descending,
    {
        LogQuery {
            levels_upper: Vec::new(),
            from_ts: None,
            to_ts: None,
            module_like: Vec::new(),
            file_like: Vec::new(),
            thread_ids: Vec::new(),
            search: None,
            include_threadless: false,
            after_id: None,
            limit: None,
            descending: false,
        }
    }
}

/// A log as it is stored.
#[derive(Debug, PartialEq, Eq)]
pub struct StoredLog {
    pub id: i64,
    pub ts: i64,
    pub ts_nanos: i64,
    pub level: String,
    pub target: String,
    pub body: Option<String>,
    pub thread_id: Option<String>,
    pub process_uuid: Option<String>,
    pub module: Option<String>,
    pub file: Option<String>,
    pub line: Option<i64>,
    pub estimated_bytes: i64,
}

impl Clone for StoredLog {
    fn clone(&self) -> (copy: Self)
        ensures
            copy == *self,
    {
        StoredLog {
            id: self.id,
            ts: self.ts,
            ts_nanos: self.ts_nanos,
            level: self.level.clone(),
            target: self.target.clone(),
            body: clone_text(&self.body),
            thread_id: clone_text(&self.thread_id),
            process_uuid: clone_text(&self.process_uuid),
            module: clone_text(&self.module),
            file: clone_text(&self.file),
            line: self.line,
            estimated_bytes: self.estimated_bytes,
        }
    }
}

/// Why logs were not recorded, read or dropped.
#[derive(Clone, Copy, Debug, PartialEq, Eq, Structural)]
pub enum LogStoreError {
    /// Every log belongs to a thread that does not exist.
    NoCanonicalThread,
    /// The size of a log cannot be counted.
    EntryTooLarge,
    /// There is no identifier left.
    IdentifiersExhausted,
    /// The store was closed.
    Closed,
}

impl LogStoreError {
    pub open spec fn text(self) -> Seq<char> {
        match self {
            LogStoreError::NoCanonicalThread => "Runtime State could not complete the `insert thread logs` operation; verify canonical thread state, then retry"@,
            LogStoreError::EntryTooLarge => "log entry size exceeds supported range"@,
            LogStoreError::IdentifiersExhausted => "log identifiers are exhausted"@,
            LogStoreError::Closed => "log store is closed"@,
        }
    }

    pub fn message(&self) -> (text: String)
        ensures
            text@ == self.text(),
    {
        match self {
            LogStoreError::NoCanonicalThread => "Runtime State could not complete the `insert thread logs` operation; verify canonical thread state, then retry".to_owned(),
            LogStoreError::EntryTooLarge => "log entry size exceeds supported range".to_owned(),
            LogStoreError::IdentifiersExhausted => "log identifiers are exhausted".to_owned(),
            LogStoreError::Closed => "log store is closed".to_owned(),
        }
    }
}

/// What the log store holds: the logs in the order of their identifiers, and the last identifier
/// that was given out.
#[verifier::ext_equal]
pub struct LogStoreView {
    pub backend: RuntimeStateBackend,
    pub rows: Seq<StoredLog>,
    pub last_id: i64,
    /// Whether the store was closed: its operations then fail.
    pub closed: bool,
}

/// The recorded logs.
pub struct LogStore {
    backend: RuntimeStateBackend,
    rows: Vec<StoredLog>,
    last_id: i64,
    closed: bool,
}

impl View for LogStore {
    type V = LogStoreView;

    closed spec fn view(&self) -> LogStoreView {
        LogStoreView { backend: self.backend, rows: self.rows@, last_id: self.last_id, closed: self.closed }
    }
}

/// The identifiers grow along the sequence.
pub open spec fn ids_grow(rows: Seq<StoredLog>) -> bool {
    forall|i: int, j: int| #![trigger rows[i], rows[j]] 0 <= i < j < rows.len() ==> rows[i].id < rows[j].id
}

/// The identifiers grow along the sequence, none is above `last_id`, and no size is negative.
pub open spec fn in_id_order(rows: Seq<StoredLog>, last_id: i64) -> bool {
    &&& ids_grow(rows)
    &&& forall|i: int| 0 <= i < rows.len() ==> 0 < (#[trigger] rows[i]).id <= last_id && 0 <= rows[i].estimated_bytes
}

impl LogStore {
    #[verifier::type_invariant]
    spec fn inv(self) -> bool {
        0 <= self.last_id && in_id_order(self.rows@, self.last_id)
    }

    /// A store without logs.
    pub fn new(backend: RuntimeStateBackend) -> (store: Self)
        ensures
            store@ == (LogStoreView { backend, rows: Seq::empty(), last_id: 0, closed: false }),
    {
        LogStore { backend, rows: Vec::new(), last_id: 0, closed: false }
    }

    /// A store with the given logs, `last_id` being the last identifier given out. There is none
    /// unless the identifiers grow up to `last_id` and no size is negative.
    pub fn from_rows(backend: RuntimeStateBackend, rows: Vec<StoredLog>, last_id: i64) -> (store: Option<Self>)
        ensures
            match store {
                Some(store) => {
                    &&& 0 <= last_id
                    &&& in_id_order(rows@, last_id)
                    &&& store@ == (LogStoreView { backend, rows: rows@, last_id, closed: false })
                },
                None => last_id < 0 || !in_id_order(rows@, last_id),
            },
    {
        if last_id < 0 {
            return None;
        }
        let mut i: usize = 0;
        while i < rows.len()
            invariant
                i <= rows@.len(),
                in_id_order(rows@.take(i as int), last_id),
            decreases rows@.len() - i,
        {
            let ghost seen = rows@.take(i as int);
            let ghost more = rows@.take(i + 1);
            let row = &rows[i];
            let follows = i == 0 || rows[i - 1].id < row.id;
            if !follows || row.id <= 0 || row.id > last_id || row.estimated_bytes < 0 {
                assert(in_id_order(rows@, last_id) ==> 0 < rows@[i as int].id <= last_id && 0 <= rows@[i as int].estimated_bytes);
                assert(i > 0 && in_id_order(rows@, last_id) ==> rows@[i - 1].id < rows@[i as int].id);
                return None;
            }
            proof {
                assert forall|a: int, b: int| #![trigger more[a], more[b]] 0 <= a < b < more.len() implies more[a].id < more[b].id by {
                    if b < i {
                        assert(seen[a] == more[a] && seen[b] == more[b]);
                    } else if a < i - 1 {
                        assert(seen[a] == more[a] && seen[i - 1] == rows@[i - 1]);
                    }
                }
                assert forall|a: int| 0 <= a < more.len() implies 0 < (#[trigger] more[a]).id <= last_id && 0 <= more[a].estimated_bytes by {
                    if a < i {
                        assert(seen[a] == more[a]);
                    }
                }
            }
            i += 1;
        }
        assert(rows@.take(i as int) =~= rows@);
        Some(LogStore { backend, rows, last_id, closed: false })
    }

    /// Closes the store. Operations that need its rows fail from now on.
    pub fn close(&mut self)
        ensures
            final(self)@ == (LogStoreView { closed: true, ..old(self)@ }),
    {
        proof {
            use_type_invariant(&*self);
        }
        self.closed = true;
    }

    pub(crate) fn is_closed(&self) -> (closed: bool)
        ensures
            closed == self@.closed,
    {
        self.closed
    }

    /// The last identifier that was given out; 0 if there is none.
    pub fn last_id(&self) -> (last_id: i64)
        ensures
            last_id == self@.last_id,
    {
        self.last_id
    }

    /// The logs, in the order of their identifiers.
    pub fn rows(&self) -> (rows: &[StoredLog])
        ensures
            rows@ == self@.rows,
    {
        self.rows.as_slice()
    }
}

} // verus!
