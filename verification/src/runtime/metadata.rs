//! Thread metadata: reads, updates of single fields, and the times given out for them.

use super::relations::with_edge_if_absent;
use super::StateRuntime;
use super::StateRuntimeView;
use crate::backend::RuntimeStateBackend;
use crate::text::is_trimmed;
use crate::text::owned_text;
use crate::text::str_view;
use crate::text::trim;
use crate::thread_id::opt_view;
use crate::thread_id::ThreadId;
use crate::threads::clone_text;
use crate::threads::ThreadHistoryMode;
use crate::threads::ThreadMetadata;
use crate::threads::ThreadRow;
use crate::outside::fits_datetime;
use crate::time::is_datetime_millis;
use crate::time::whole_seconds;
use crate::time::whole_seconds_of;
use vstd::prelude::*;
use vstd::string::*;

verus! {

/// Why an operation on threads did not happen.
#[derive(Clone, Copy, Debug, PartialEq, Eq, Structural)]
pub enum ThreadStoreError {
    /// The operation is one of the local database.
    LocalOnly,
    /// The time is out of range.
    TimestampOutOfRange,
}

impl ThreadStoreError {
    pub open spec fn text(self) -> Seq<char> {
        match self {
            ThreadStoreError::LocalOnly => "the operation needs the local SQLite runtime state"@,
            ThreadStoreError::TimestampOutOfRange => "thread timestamp is out of range"@,
        }
    }

    pub fn message(&self) -> (text: String)
        ensures
            text@ == self.text(),
    {
        match self {
            ThreadStoreError::LocalOnly => "the operation needs the local SQLite runtime state".to_owned(),
            ThreadStoreError::TimestampOutOfRange => "thread timestamp is out of range".to_owned(),
        }
    }
}

/// What is needed before a thread is resumed or forked.
#[derive(Debug, PartialEq, Eq)]
pub struct ThreadResumeMetadata {
    /// Working directory of the thread.
    pub cwd: String,
    /// Latest model, if one is known.
    pub model: Option<String>,
}

impl Clone for ThreadResumeMetadata {
    fn clone(&self) -> (copy: Self)
        ensures
            copy == *self,
    {
        ThreadResumeMetadata { cwd: self.cwd.clone(), model: clone_text(&self.model) }
    }
}

/// The text that a thread is shown with: its preview, or else the first message of the user.
pub open spec fn preview_text(metadata: ThreadMetadata) -> Seq<char> {
    match metadata.preview {
        Some(preview) => preview@,
        None => match metadata.first_user_message {
            Some(message) => message@,
            None => Seq::empty(),
        },
    }
}

/// The text that a thread is shown with.
pub fn metadata_preview(metadata: &ThreadMetadata) -> (preview: String)
    ensures
        preview@ == preview_text(*metadata),
{
    match &metadata.preview {
        Some(preview) => preview.clone(),
        None => match &metadata.first_user_message {
            Some(message) => message.clone(),
            None => String::new(),
        },
    }
}

/// The preview of a stored thread is missing or empty.
pub open spec fn has_empty_preview(metadata: ThreadMetadata) -> bool {
    metadata.preview is None || metadata.preview->0@.len() == 0
}

fn is_preview_empty(metadata: &ThreadMetadata) -> (r: bool)
    ensures
        r == has_empty_preview(*metadata),
{
    match &metadata.preview {
        Some(preview) => preview.as_str().is_empty(),
        None => true,
    }
}

/// The time given out for `candidate`, and the latest time given out after it.
///
/// A new time is given out as it is. So is one from a second or more ago, which repairs history.
/// For any other the next millisecond after the latest time is given out.
pub open spec fn allocated(mark: i64, candidate: i64) -> (i64, i64) {
    if candidate > mark {
        (candidate, candidate)
    } else if candidate + 1000 <= mark || mark == i64::MAX {
        (candidate, mark)
    } else {
        ((mark + 1) as i64, (mark + 1) as i64)
    }
}

/// Gives out a time.
pub fn allocate_thread_timestamp(high_water_mark: &mut i64, candidate: i64) -> (result: Result<i64, ThreadStoreError>)
    ensures
        *final(high_water_mark) == allocated(*old(high_water_mark), candidate).1,
        result == if is_datetime_millis(allocated(*old(high_water_mark), candidate).0) {
            Ok(allocated(*old(high_water_mark), candidate).0)
        } else {
            Err::<i64, ThreadStoreError>(ThreadStoreError::TimestampOutOfRange)
        },
{
    let mark: i64 = *high_water_mark;
    let value: i64 = if candidate > mark {
        *high_water_mark = candidate;
        candidate
    } else if candidate as i128 + 1000 <= mark as i128 || mark == i64::MAX {
        candidate
    } else {
        *high_water_mark = mark + 1;
        mark + 1
    };
    if fits_datetime(value) {
        Ok(value)
    } else {
        Err(ThreadStoreError::TimestampOutOfRange)
    }
}

/// A time with whole seconds; the earliest time for one before the first whole second.
pub open spec fn in_whole_seconds(millis: i64) -> i64 {
    if whole_seconds(millis) * 1000 < i64::MIN {
        i64::MIN
    } else {
        (whole_seconds(millis) * 1000) as i64
    }
}

fn to_whole_seconds(millis: i64) -> (time: i64)
    ensures
        time == in_whole_seconds(millis),
{
    let seconds: i64 = whole_seconds_of(millis);
    let time: i128 = seconds as i128 * 1000;
    if time < i64::MIN as i128 {
        i64::MIN
    } else {
        time as i64
    }
}

/// What is stored of the metadata of a thread that is inserted: sections and the repository are
/// set by other operations, and the time of archiving has whole seconds.
pub open spec fn is_inserted_row(metadata: ThreadMetadata, updated_at: i64, recency_at: i64, row: ThreadRow) -> bool {
    &&& row.metadata.preview is Some
    &&& row.metadata.preview->0@ == preview_text(metadata)
    &&& row.metadata == ThreadMetadata {
        updated_at,
        recency_at,
        preview: row.metadata.preview,
        archived_at: match metadata.archived_at {
            Some(archived_at) => Some(in_whole_seconds(archived_at)),
            None => None,
        },
        section: None,
        section_position: None,
        section_entered_at: None,
        repository_identity: None,
        ..metadata
    }
    &&& row.memory_mode@ == "enabled"@
    &&& row.memory_mode_ordinal == -1
    &&& row.stream_version == 0
    &&& row.polluted_at_stream_version is None
    &&& row.has_rollout_path
}

/// What is stored of the metadata of a thread that is put in place of `existing`: what decides
/// about memory stays.
pub open spec fn is_upserted_row(metadata: ThreadMetadata, existing: Option<ThreadRow>, updated_at: i64, recency_at: i64, row: ThreadRow) -> bool {
    &&& row.metadata.preview is Some
    &&& row.metadata.preview->0@ == preview_text(metadata)
    &&& row.metadata == ThreadMetadata { updated_at, recency_at, preview: row.metadata.preview, ..metadata }
    &&& match existing {
        Some(existing) => row == ThreadRow { metadata: row.metadata, has_rollout_path: true, ..existing },
        None => {
            &&& row.memory_mode@ == "enabled"@
            &&& row.memory_mode_ordinal == -1
            &&& row.stream_version == 0
            &&& row.polluted_at_stream_version is None
            &&& row.has_rollout_path
        },
    }
}

/// The state after both times of a thread were given out, if they could be.
pub open spec fn allocating(state: StateRuntimeView, updated_at: i64, recency_at: i64) -> (StateRuntimeView, Option<(i64, i64)>) {
    let (updated, updated_mark) = allocated(state.updated_at_mark, updated_at);
    let (recency, recency_mark) = allocated(state.recency_at_mark, recency_at);
    let once = StateRuntimeView { updated_at_mark: updated_mark, ..state };
    if !is_datetime_millis(updated) {
        (once, None)
    } else {
        let twice = StateRuntimeView { recency_at_mark: recency_mark, ..once };
        if !is_datetime_millis(recency) {
            (twice, None)
        } else {
            (twice, Some((updated, recency)))
        }
    }
}

/// The thread with the given identifier, if there is one.
pub open spec fn thread_at(state: StateRuntimeView, id: ThreadId) -> Option<ThreadRow> {
    if state.threads.contains_key(id) {
        Some(state.threads[id])
    } else {
        None
    }
}

/// The row with other metadata.
pub open spec fn with_metadata(row: ThreadRow, metadata: ThreadMetadata) -> ThreadRow {
    ThreadRow { metadata, ..row }
}

/// The later of a time and the millisecond after another.
pub open spec fn later_than(time: i64, before: i64) -> i64 {
    if time > before || before == i64::MAX {
        if time > before {
            time
        } else {
            before
        }
    } else {
        (before + 1) as i64
    }
}

impl StateRuntime {
    pub(super) fn is_local(&self) -> (local: bool)
        ensures
            local == self@.backend is Sqlite,
    {
        matches!(self.backend, RuntimeStateBackend::Sqlite)
    }

    /// Gives out a time of update. Cursors in the order of updates rely on times that are given
    /// out once.
    pub fn allocate_thread_updated_at(&mut self, updated_at: i64) -> (result: Result<i64, ThreadStoreError>)
        ensures
            ({
                let (time, mark) = allocated(old(self)@.updated_at_mark, updated_at);
                &&& final(self)@ == (StateRuntimeView { updated_at_mark: mark, ..old(self)@ })
                &&& result == if is_datetime_millis(time) {
                    Ok(time)
                } else {
                    Err::<i64, ThreadStoreError>(ThreadStoreError::TimestampOutOfRange)
                }
            }),
    {
        allocate_thread_timestamp(&mut self.updated_at_mark, updated_at)
    }

    /// Gives out a time of use.
    pub fn allocate_thread_recency_at(&mut self, recency_at: i64) -> (result: Result<i64, ThreadStoreError>)
        ensures
            ({
                let (time, mark) = allocated(old(self)@.recency_at_mark, recency_at);
                &&& final(self)@ == (StateRuntimeView { recency_at_mark: mark, ..old(self)@ })
                &&& result == if is_datetime_millis(time) {
                    Ok(time)
                } else {
                    Err::<i64, ThreadStoreError>(ThreadStoreError::TimestampOutOfRange)
                }
            }),
    {
        allocate_thread_timestamp(&mut self.recency_at_mark, recency_at)
    }

    /// Puts a row as it is in the place of the row with the same thread.
    pub fn put_thread_row(&mut self, row: ThreadRow)
        ensures
            final(self)@ == old(self)@.with_thread(row),
    {
        self.threads.put(row);
    }

    /// The metadata of a thread.
    pub fn get_thread(&self, id: ThreadId) -> (result: Result<Option<ThreadMetadata>, ThreadStoreError>)
        ensures
            result == if self@.backend is Sqlite {
                Ok(
                    match thread_at(self@, id) {
                        Some(row) => Some(row.metadata),
                        None => None,
                    },
                )
            } else {
                Err::<Option<ThreadMetadata>, ThreadStoreError>(ThreadStoreError::LocalOnly)
            },
    {
        if !self.is_local() {
            return Err(ThreadStoreError::LocalOnly);
        }
        match self.threads.get(&id) {
            Some(row) => Ok(Some(row.metadata.clone())),
            None => Ok(None),
        }
    }

    /// The working directory and the model of a thread.
    pub fn get_thread_resume_metadata(&self, id: ThreadId) -> (found: Option<ThreadResumeMetadata>)
        ensures
            found == match thread_at(self@, id) {
                Some(row) => Some(ThreadResumeMetadata { cwd: row.metadata.cwd, model: row.metadata.model }),
                None => None::<ThreadResumeMetadata>,
            },
    {
        match self.threads.get(&id) {
            Some(row) => Some(ThreadResumeMetadata { cwd: row.metadata.cwd.clone(), model: clone_text(&row.metadata.model) }),
            None => None,
        }
    }

    /// The memory mode of a thread.
    pub fn get_thread_memory_mode(&self, id: ThreadId) -> (result: Result<Option<String>, ThreadStoreError>)
        ensures
            result == if self@.backend is Sqlite {
                Ok(
                    match thread_at(self@, id) {
                        Some(row) => Some(row.memory_mode),
                        None => None,
                    },
                )
            } else {
                Err::<Option<String>, ThreadStoreError>(ThreadStoreError::LocalOnly)
            },
    {
        if !self.is_local() {
            return Err(ThreadStoreError::LocalOnly);
        }
        match self.threads.get(&id) {
            Some(row) => Ok(Some(row.memory_mode.clone())),
            None => Ok(None),
        }
    }

    /// Sets the preview of a thread that has none, without surrounding white space. A blank
    /// preview is not set.
    pub fn set_thread_preview_if_empty(&mut self, thread_id: ThreadId, preview: &str) -> (changed: bool)
        ensures
            exists|trimmed: Seq<char>| #[trigger] is_trimmed(preview@, trimmed) && {
                &&& changed == (trimmed.len() > 0 && thread_at(old(self)@, thread_id) is Some && has_empty_preview(
                    thread_at(old(self)@, thread_id)->0.metadata,
                ))
                &&& if changed {
                    let row = old(self)@.threads[thread_id];
                    let after = final(self)@.threads[thread_id].metadata.preview;
                    &&& after is Some
                    &&& after->0@ == trimmed
                    &&& final(self)@ == old(self)@.with_threads(
                        old(self)@.threads.insert(thread_id, with_metadata(row, ThreadMetadata { preview: after, ..row.metadata })),
                    )
                } else {
                    final(self)@ == old(self)@
                }
            },
    {
        let trimmed = trim(preview);
        if trimmed.as_str().is_empty() {
            return false;
        }
        let mut row = match self.threads.get(&thread_id) {
            Some(row) => if is_preview_empty(&row.metadata) {
                row.clone()
            } else {
                return false;
            },
            None => return false,
        };
        row.metadata.preview = Some(trimmed);
        self.threads.put(row);
        true
    }

    /// Inserts or replaces the metadata of a thread.
    pub fn upsert_thread(&mut self, metadata: &ThreadMetadata) -> (result: Result<(), ThreadStoreError>)
        ensures
            ({
                let (marked, times) = allocating(old(self)@, metadata.updated_at, metadata.recency_at);
                match result {
                    Ok(_) => {
                        &&& old(self)@.backend is Sqlite
                        &&& times is Some
                        &&& final(self)@.threads.contains_key(metadata.id)
                        &&& is_upserted_row(
                            *metadata,
                            thread_at(old(self)@, metadata.id),
                            times->Some_0.0,
                            times->Some_0.1,
                            final(self)@.threads[metadata.id],
                        )
                        &&& final(self)@ == marked.with_threads(
                            old(self)@.threads.insert(metadata.id, final(self)@.threads[metadata.id]),
                        )
                    },
                    Err(ThreadStoreError::LocalOnly) => old(self)@.backend is Postgresql && times is Some && final(self)@ == marked,
                    Err(ThreadStoreError::TimestampOutOfRange) => times is None && final(self)@ == marked,
                }
            }),
    {
        let updated_at: i64 = match self.allocate_thread_updated_at(metadata.updated_at) {
            Ok(updated_at) => updated_at,
            Err(error) => return Err(error),
        };
        let recency_at: i64 = match self.allocate_thread_recency_at(metadata.recency_at) {
            Ok(recency_at) => recency_at,
            Err(error) => return Err(error),
        };
        if !self.is_local() {
            return Err(ThreadStoreError::LocalOnly);
        }
        let mut stored = metadata.clone();
        stored.updated_at = updated_at;
        stored.recency_at = recency_at;
        stored.preview = Some(metadata_preview(metadata));
        let row = match self.threads.get(&metadata.id) {
            Some(existing) => ThreadRow {
                metadata: stored,
                memory_mode: existing.memory_mode.clone(),
                memory_mode_ordinal: existing.memory_mode_ordinal,
                stream_version: existing.stream_version,
                polluted_at_stream_version: existing.polluted_at_stream_version,
                has_rollout_path: true,
            },
            None => ThreadRow {
                metadata: stored,
                memory_mode: "enabled".to_owned(),
                memory_mode_ordinal: -1,
                stream_version: 0,
                polluted_at_stream_version: None,
                has_rollout_path: true,
            },
        };
        self.threads.put(row);
        Ok(())
    }

    /// Inserts the metadata of a thread unless it is there, and the edge from the thread that
    /// spawned it unless there is one.
    pub fn insert_thread_if_absent(&mut self, metadata: &ThreadMetadata, spawned_by: Option<ThreadId>) -> (result: Result<bool, ThreadStoreError>)
        ensures
            ({
                let (marked, times) = allocating(old(self)@, metadata.updated_at, metadata.recency_at);
                match result {
                    Ok(inserted) => {
                        let linked = match spawned_by {
                            Some(parent) => with_edge_if_absent(marked, parent, metadata.id),
                            None => marked,
                        };
                        &&& old(self)@.backend is Sqlite
                        &&& times is Some
                        &&& inserted == !old(self)@.threads.contains_key(metadata.id)
                        &&& if inserted {
                            &&& final(self)@.threads.contains_key(metadata.id)
                            &&& is_inserted_row(*metadata, times->Some_0.0, times->Some_0.1, final(self)@.threads[metadata.id])
                            &&& final(self)@ == linked.with_threads(
                                old(self)@.threads.insert(metadata.id, final(self)@.threads[metadata.id]),
                            )
                        } else {
                            final(self)@ == linked
                        }
                    },
                    Err(ThreadStoreError::LocalOnly) => old(self)@.backend is Postgresql && times is Some && final(self)@ == marked,
                    Err(ThreadStoreError::TimestampOutOfRange) => times is None && final(self)@ == marked,
                }
            }),
    {
        let updated_at: i64 = match self.allocate_thread_updated_at(metadata.updated_at) {
            Ok(updated_at) => updated_at,
            Err(error) => return Err(error),
        };
        let recency_at: i64 = match self.allocate_thread_recency_at(metadata.recency_at) {
            Ok(recency_at) => recency_at,
            Err(error) => return Err(error),
        };
        if !self.is_local() {
            return Err(ThreadStoreError::LocalOnly);
        }
        let inserted = !self.threads.contains(&metadata.id);
        if inserted {
            let mut stored = metadata.clone();
            stored.updated_at = updated_at;
            stored.recency_at = recency_at;
            stored.preview = Some(metadata_preview(metadata));
            stored.archived_at = match metadata.archived_at {
                Some(archived_at) => Some(to_whole_seconds(archived_at)),
                None => None,
            };
            stored.section = None;
            stored.section_position = None;
            stored.section_entered_at = None;
            stored.repository_identity = None;
            self.threads.put(
                ThreadRow {
                    metadata: stored,
                    memory_mode: "enabled".to_owned(),
                    memory_mode_ordinal: -1,
                    stream_version: 0,
                    polluted_at_stream_version: None,
                    has_rollout_path: true,
                },
            );
        }
        if let Some(parent) = spawned_by {
            self.insert_thread_spawn_edge_if_absent(parent, metadata.id);
        }
        Ok(inserted)
    }

    /// Pins a thread or unpins it.
    pub fn update_thread_pin(&mut self, thread_id: ThreadId, is_pinned: bool) -> (changed: bool)
        ensures
            changed == old(self)@.threads.contains_key(thread_id),
            final(self)@ == match thread_at(old(self)@, thread_id) {
                Some(row) => old(self)@.with_threads(
                    old(self)@.threads.insert(thread_id, with_metadata(row, ThreadMetadata { is_pinned, ..row.metadata })),
                ),
                None => old(self)@,
            },
    {
        let mut row = match self.threads.get(&thread_id) {
            Some(row) => row.clone(),
            None => return false,
        };
        row.metadata.is_pinned = is_pinned;
        self.threads.put(row);
        true
    }

    /// Sets the memory mode of a thread.
    pub fn set_thread_memory_mode(&mut self, thread_id: ThreadId, memory_mode: &str) -> (result: Result<bool, ThreadStoreError>)
        ensures
            match result {
                Ok(changed) => {
                    &&& old(self)@.backend is Sqlite
                    &&& changed == old(self)@.threads.contains_key(thread_id)
                    &&& match thread_at(old(self)@, thread_id) {
                        Some(row) => {
                            let after = final(self)@.threads[thread_id];
                            &&& after.memory_mode@ == memory_mode@
                            &&& final(self)@ == old(self)@.with_threads(
                                old(self)@.threads.insert(thread_id, ThreadRow { memory_mode: after.memory_mode, ..row }),
                            )
                        },
                        None => final(self)@ == old(self)@,
                    }
                },
                Err(error) => error == ThreadStoreError::LocalOnly && old(self)@.backend is Postgresql && final(self)@ == old(self)@,
            },
    {
        if !self.is_local() {
            return Err(ThreadStoreError::LocalOnly);
        }
        let mut row = match self.threads.get(&thread_id) {
            Some(row) => row.clone(),
            None => return Ok(false),
        };
        row.memory_mode = memory_mode.to_owned();
        self.threads.put(row);
        Ok(true)
    }

    /// Sets the title of a thread.
    pub fn update_thread_title(&mut self, thread_id: ThreadId, title: &str) -> (result: Result<bool, ThreadStoreError>)
        ensures
            match result {
                Ok(changed) => {
                    &&& old(self)@.backend is Sqlite
                    &&& changed == old(self)@.threads.contains_key(thread_id)
                    &&& match thread_at(old(self)@, thread_id) {
                        Some(row) => {
                            let after = final(self)@.threads[thread_id].metadata.title;
                            &&& after@ == title@
                            &&& final(self)@ == old(self)@.with_threads(
                                old(self)@.threads.insert(thread_id, with_metadata(row, ThreadMetadata { title: after, ..row.metadata })),
                            )
                        },
                        None => final(self)@ == old(self)@,
                    }
                },
                Err(error) => error == ThreadStoreError::LocalOnly && old(self)@.backend is Postgresql && final(self)@ == old(self)@,
            },
    {
        if !self.is_local() {
            return Err(ThreadStoreError::LocalOnly);
        }
        let mut row = match self.threads.get(&thread_id) {
            Some(row) => row.clone(),
            None => return Ok(false),
        };
        row.metadata.title = title.to_owned();
        self.threads.put(row);
        Ok(true)
    }

    /// Sets the name of a thread, or removes it.
    pub fn update_thread_name(&mut self, thread_id: ThreadId, name: Option<&str>) -> (result: Result<bool, ThreadStoreError>)
        ensures
            match result {
                Ok(changed) => {
                    &&& old(self)@.backend is Sqlite
                    &&& changed == old(self)@.threads.contains_key(thread_id)
                    &&& match thread_at(old(self)@, thread_id) {
                        Some(row) => {
                            let after = final(self)@.threads[thread_id].metadata.name;
                            &&& opt_view(after) == str_view(name)
                            &&& final(self)@ == old(self)@.with_threads(
                                old(self)@.threads.insert(thread_id, with_metadata(row, ThreadMetadata { name: after, ..row.metadata })),
                            )
                        },
                        None => final(self)@ == old(self)@,
                    }
                },
                Err(error) => error == ThreadStoreError::LocalOnly && old(self)@.backend is Postgresql && final(self)@ == old(self)@,
            },
    {
        if !self.is_local() {
            return Err(ThreadStoreError::LocalOnly);
        }
        let mut row = match self.threads.get(&thread_id) {
            Some(row) => row.clone(),
            None => return Ok(false),
        };
        row.metadata.name = owned_text(name);
        self.threads.put(row);
        Ok(true)
    }

    /// Records that a thread was updated.
    pub fn touch_thread_updated_at(&mut self, thread_id: ThreadId, updated_at: i64) -> (result: Result<bool, ThreadStoreError>)
        ensures
            ({
                let (time, mark) = allocated(old(self)@.updated_at_mark, updated_at);
                let marked = StateRuntimeView { updated_at_mark: mark, ..old(self)@ };
                match result {
                    Ok(changed) => {
                        &&& old(self)@.backend is Sqlite
                        &&& is_datetime_millis(time)
                        &&& changed == old(self)@.threads.contains_key(thread_id)
                        &&& final(self)@ == match thread_at(old(self)@, thread_id) {
                            Some(row) => marked.with_threads(
                                old(self)@.threads.insert(thread_id, with_metadata(row, ThreadMetadata { updated_at: time, ..row.metadata })),
                            ),
                            None => marked,
                        }
                    },
                    Err(ThreadStoreError::LocalOnly) => old(self)@.backend is Postgresql && is_datetime_millis(time) && final(self)@ == marked,
                    Err(ThreadStoreError::TimestampOutOfRange) => !is_datetime_millis(time) && final(self)@ == marked,
                }
            }),
    {
        let time: i64 = match self.allocate_thread_updated_at(updated_at) {
            Ok(time) => time,
            Err(error) => return Err(error),
        };
        if !self.is_local() {
            return Err(ThreadStoreError::LocalOnly);
        }
        let mut row = match self.threads.get(&thread_id) {
            Some(row) => row.clone(),
            None => return Ok(false),
        };
        row.metadata.updated_at = time;
        self.threads.put(row);
        Ok(true)
    }

    /// Records that a thread was used. Its recency always grows.
    pub fn touch_thread_recency_at(&mut self, thread_id: ThreadId, recency_at: i64) -> (result: Result<bool, ThreadStoreError>)
        ensures
            ({
                let (time, mark) = allocated(old(self)@.recency_at_mark, recency_at);
                let marked = StateRuntimeView { recency_at_mark: mark, ..old(self)@ };
                match result {
                    Ok(changed) => {
                        &&& old(self)@.backend is Sqlite
                        &&& is_datetime_millis(time)
                        &&& changed == old(self)@.threads.contains_key(thread_id)
                        &&& final(self)@ == match thread_at(old(self)@, thread_id) {
                            Some(row) => marked.with_threads(
                                old(self)@.threads.insert(
                                    thread_id,
                                    with_metadata(
                                        row,
                                        ThreadMetadata { recency_at: later_than(time, row.metadata.recency_at), ..row.metadata },
                                    ),
                                ),
                            ),
                            None => marked,
                        }
                    },
                    Err(ThreadStoreError::LocalOnly) => old(self)@.backend is Postgresql && is_datetime_millis(time) && final(self)@ == marked,
                    Err(ThreadStoreError::TimestampOutOfRange) => !is_datetime_millis(time) && final(self)@ == marked,
                }
            }),
    {
        let time: i64 = match self.allocate_thread_recency_at(recency_at) {
            Ok(time) => time,
            Err(error) => return Err(error),
        };
        if !self.is_local() {
            return Err(ThreadStoreError::LocalOnly);
        }
        let mut row = match self.threads.get(&thread_id) {
            Some(row) => row.clone(),
            None => return Ok(false),
        };
        let before: i64 = row.metadata.recency_at;
        row.metadata.recency_at = if time > before {
            time
        } else if before == i64::MAX {
            before
        } else {
            before + 1
        };
        self.threads.put(row);
        Ok(true)
    }

    /// Turns to paginated history for a thread that has not. Says whether it did.
    pub fn mark_thread_paginated(&mut self, thread_id: ThreadId) -> (changed: bool)
        ensures
            changed == (thread_at(old(self)@, thread_id) is Some && thread_at(old(self)@, thread_id)->0.metadata.history_mode
                != ThreadHistoryMode::Paginated),
            final(self)@ == if changed {
                let row = old(self)@.threads[thread_id];
                old(self)@.with_threads(
                    old(self)@.threads.insert(
                        thread_id,
                        with_metadata(row, ThreadMetadata { history_mode: ThreadHistoryMode::Paginated, ..row.metadata }),
                    ),
                )
            } else {
                old(self)@
            },
    {
        let mut row = match self.threads.get(&thread_id) {
            Some(row) => row.clone(),
            None => return false,
        };
        if row.metadata.history_mode == ThreadHistoryMode::Paginated {
            return false;
        }
        row.metadata.history_mode = ThreadHistoryMode::Paginated;
        self.threads.put(row);
        true
    }
}

} // verus!
