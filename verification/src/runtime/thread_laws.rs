//! Laws of the metadata of threads, told in the fields before and after.

use super::metadata::allocate_thread_timestamp;
use super::metadata::ThreadResumeMetadata;
use super::metadata::ThreadStoreError;
use super::StateRuntime;
use super::StateRuntimeView;
use crate::text::is_space;
use crate::text::is_trimmed;
use crate::text::trims;
use crate::thread_id::ThreadId;
use crate::threads::DirectionalThreadSpawnEdgeStatus;
use crate::threads::ThreadHistoryMode;
use crate::threads::ThreadMetadata;
use vstd::prelude::*;

verus! {

/// The time lies in the years that a date can be in.
pub open spec fn is_a_date(millis: i64) -> bool {
    -8_334_601_228_800_000 <= millis <= 8_210_266_876_799_999
}

/// `time` is what is given out for `candidate` where `mark` is the latest time given out: the candidate if
/// it is later, or if it lies a second or more back, which repairs history; else the next millisecond.
pub open spec fn is_given_out(mark: i64, candidate: i64, time: i64) -> bool {
    &&& candidate > mark ==> time == candidate
    &&& candidate <= mark - 1000 ==> time == candidate
    &&& mark - 1000 < candidate <= mark && mark < i64::MAX ==> time == mark + 1
}

/// A time is given out as said, and the latest time given out moves on with it; it never moves back. Only a
/// time that names no date is refused.
pub proof fn law_time_is_given_out(mark: &mut i64, candidate: i64, result: Result<i64, ThreadStoreError>)
    requires
        call_ensures(allocate_thread_timestamp, (mark, candidate), result),
    ensures
        *final(mark) >= *old(mark),
        result is Ok ==> is_given_out(*old(mark), candidate, result->Ok_0) && is_a_date(result->Ok_0),
        result is Err ==> !is_a_date(candidate) || !is_a_date((*old(mark) + 1) as i64),
        candidate > *old(mark) && is_a_date(candidate) ==> result == Ok::<i64, ThreadStoreError>(candidate) && *final(mark) == candidate,
        candidate <= *old(mark) - 1000 && is_a_date(candidate) ==> result == Ok::<i64, ThreadStoreError>(candidate) && *final(mark) == *old(mark),
        *old(mark) - 1000 < candidate <= *old(mark) && 0 <= *old(mark) < 8_210_266_876_799_999 ==> result is Ok && result->Ok_0 == *old(mark) + 1 && *final(mark) == *old(mark) + 1,
{
}

/// Times of update are given out by the mark of updates, times of use by the mark of uses. Nothing else
/// changes.
pub proof fn law_marks_are_kept_apart(runtime: &mut StateRuntime, time: i64, result: Result<i64, ThreadStoreError>, of_update: bool)
    requires
        of_update ==> call_ensures(StateRuntime::allocate_thread_updated_at, (runtime, time), result),
        !of_update ==> call_ensures(StateRuntime::allocate_thread_recency_at, (runtime, time), result),
    ensures
        of_update && result is Ok ==> is_given_out(old(runtime)@.updated_at_mark, time, result->Ok_0),
        !of_update && result is Ok ==> is_given_out(old(runtime)@.recency_at_mark, time, result->Ok_0),
        of_update ==> final(runtime)@.recency_at_mark == old(runtime)@.recency_at_mark && final(runtime)@.updated_at_mark >= old(runtime)@.updated_at_mark,
        !of_update ==> final(runtime)@.updated_at_mark == old(runtime)@.updated_at_mark && final(runtime)@.recency_at_mark >= old(runtime)@.recency_at_mark,
        of_update && time > old(runtime)@.updated_at_mark ==> final(runtime)@.updated_at_mark == time,
        !of_update && time > old(runtime)@.recency_at_mark ==> final(runtime)@.recency_at_mark == time,
        final(runtime)@.threads == old(runtime)@.threads,
        final(runtime)@.sections == old(runtime)@.sections,
        final(runtime)@.spawn_edges == old(runtime)@.spawn_edges,
{
}

/// The stored metadata of a thread is the given one, but for its times, its preview, and what belongs to
/// sections, archiving and the repository.
pub open spec fn tells_the_same(stored: ThreadMetadata, given: ThreadMetadata) -> bool {
    &&& stored.id == given.id
    &&& stored.rollout_path == given.rollout_path
    &&& stored.created_at == given.created_at
    &&& stored.source == given.source
    &&& stored.history_mode == given.history_mode
    &&& stored.thread_source == given.thread_source
    &&& stored.agent_nickname == given.agent_nickname
    &&& stored.agent_role == given.agent_role
    &&& stored.agent_path == given.agent_path
    &&& stored.model_provider == given.model_provider
    &&& stored.model == given.model
    &&& stored.reasoning_effort == given.reasoning_effort
    &&& stored.cwd == given.cwd
    &&& stored.cli_version == given.cli_version
    &&& stored.title == given.title
    &&& stored.name == given.name
    &&& stored.sandbox_policy == given.sandbox_policy
    &&& stored.approval_mode == given.approval_mode
    &&& stored.tokens_used == given.tokens_used
    &&& stored.first_user_message == given.first_user_message
    &&& stored.is_pinned == given.is_pinned
    &&& stored.git_sha == given.git_sha
    &&& stored.git_branch == given.git_branch
    &&& stored.git_origin_url == given.git_origin_url
}

/// The stored preview is the given one or, without one, the first message of the user, or else empty.
pub open spec fn shows_preview_of(stored: ThreadMetadata, given: ThreadMetadata) -> bool {
    &&& stored.preview is Some
    &&& given.preview is Some ==> stored.preview->0@ == given.preview->0@
    &&& given.preview is None && given.first_user_message is Some ==> stored.preview->0@ == given.first_user_message->0@
    &&& given.preview is None && given.first_user_message is None ==> stored.preview->0@.len() == 0
}

/// Every thread but the given one is as before, and so is all that does not belong to threads.
pub open spec fn other_threads_stay(before: StateRuntimeView, after: StateRuntimeView, id: ThreadId) -> bool {
    &&& forall|other: ThreadId| other != id ==> (#[trigger] after.threads.contains_key(other) <==> before.threads.contains_key(other))
    &&& forall|other: ThreadId| other != id && #[trigger] before.threads.contains_key(other) ==> after.threads[other] == before.threads[other]
    &&& after.backend == before.backend
    &&& after.sections == before.sections
    &&& after.goals == before.goals
    &&& after.memories == before.memories
    &&& after.logs == before.logs
    &&& after.backfill == before.backfill
    &&& after.imports == before.imports
    &&& after.enrollments == before.enrollments
}

/// An upsert stores what was given, with times that are given out for it. What decides about the memory of a
/// thread that was there stays; memory is enabled for a new one.
pub proof fn law_upsert_stores_what_was_given(runtime: &mut StateRuntime, metadata: &ThreadMetadata, result: Result<(), ThreadStoreError>)
    requires
        call_ensures(StateRuntime::upsert_thread, (runtime, metadata), result),
    ensures
        other_threads_stay(old(runtime)@, final(runtime)@, metadata.id),
        final(runtime)@.spawn_edges == old(runtime)@.spawn_edges,
        result is Err ==> final(runtime)@.threads == old(runtime)@.threads,
        old(runtime)@.backend is Postgresql ==> result is Err,
        old(runtime)@.backend is Sqlite && metadata.updated_at > old(runtime)@.updated_at_mark && metadata.recency_at > old(runtime)@.recency_at_mark && is_a_date(
            metadata.updated_at,
        ) && is_a_date(metadata.recency_at) ==> result is Ok,
        result is Ok ==> {
            let row = final(runtime)@.threads[metadata.id];
            &&& final(runtime)@.threads.contains_key(metadata.id)
            &&& tells_the_same(row.metadata, *metadata)
            &&& shows_preview_of(row.metadata, *metadata)
            &&& row.metadata.archived_at == metadata.archived_at
            &&& row.metadata.section == metadata.section
            &&& row.metadata.section_position == metadata.section_position
            &&& row.metadata.section_entered_at == metadata.section_entered_at
            &&& row.metadata.repository_identity == metadata.repository_identity
            &&& is_given_out(old(runtime)@.updated_at_mark, metadata.updated_at, row.metadata.updated_at)
            &&& is_given_out(old(runtime)@.recency_at_mark, metadata.recency_at, row.metadata.recency_at)
            &&& row.has_rollout_path
            &&& old(runtime)@.threads.contains_key(metadata.id) ==> {
                let before = old(runtime)@.threads[metadata.id];
                &&& row.memory_mode == before.memory_mode
                &&& row.memory_mode_ordinal == before.memory_mode_ordinal
                &&& row.stream_version == before.stream_version
                &&& row.polluted_at_stream_version == before.polluted_at_stream_version
            }
            &&& !old(runtime)@.threads.contains_key(metadata.id) ==> row.memory_mode@ == "enabled"@ && row.polluted_at_stream_version is None && row.memory_mode_ordinal == -1
                && row.stream_version == 0
        },
{
}

/// A thread is inserted only where it is not there yet: as given, in no section, and with the time of
/// archiving in whole seconds. A thread that was spawned gets an open edge from the one that spawned it,
/// unless it has an edge.
pub proof fn law_insertion_never_replaces(
    runtime: &mut StateRuntime,
    metadata: &ThreadMetadata,
    spawned_by: Option<ThreadId>,
    result: Result<bool, ThreadStoreError>,
)
    requires
        call_ensures(StateRuntime::insert_thread_if_absent, (runtime, metadata, spawned_by), result),
    ensures
        other_threads_stay(old(runtime)@, final(runtime)@, metadata.id),
        result is Ok ==> result->Ok_0 == !old(runtime)@.threads.contains_key(metadata.id),
        old(runtime)@.threads.contains_key(metadata.id) || result is Err ==> final(runtime)@.threads == old(runtime)@.threads,
        old(runtime)@.backend is Postgresql ==> result is Err,
        old(runtime)@.backend is Sqlite && metadata.updated_at > old(runtime)@.updated_at_mark && metadata.recency_at > old(runtime)@.recency_at_mark && is_a_date(
            metadata.updated_at,
        ) && is_a_date(metadata.recency_at) ==> result is Ok,
        result is Ok && result->Ok_0 ==> {
            let row = final(runtime)@.threads[metadata.id];
            &&& final(runtime)@.threads.contains_key(metadata.id)
            &&& tells_the_same(row.metadata, *metadata)
            &&& shows_preview_of(row.metadata, *metadata)
            &&& row.metadata.section is None
            &&& row.metadata.section_position is None
            &&& row.metadata.section_entered_at is None
            &&& row.metadata.repository_identity is None
            &&& row.metadata.archived_at is Some <==> metadata.archived_at is Some
            &&& metadata.archived_at is Some && metadata.archived_at->0 >= i64::MIN + 999 ==> row.metadata.archived_at->0 == (metadata.archived_at->0 as int / 1000) * 1000
            &&& is_given_out(old(runtime)@.updated_at_mark, metadata.updated_at, row.metadata.updated_at)
            &&& is_given_out(old(runtime)@.recency_at_mark, metadata.recency_at, row.metadata.recency_at)
            &&& row.memory_mode@ == "enabled"@
            &&& row.memory_mode_ordinal == -1
            &&& row.stream_version == 0
            &&& row.polluted_at_stream_version is None
            &&& row.has_rollout_path
        },
        result is Ok && spawned_by is Some ==> {
            &&& final(runtime)@.spawn_edges.contains_key(metadata.id)
            &&& old(runtime)@.spawn_edges.contains_key(metadata.id) ==> final(runtime)@.spawn_edges == old(runtime)@.spawn_edges
            &&& !old(runtime)@.spawn_edges.contains_key(metadata.id) ==> {
                &&& final(runtime)@.spawn_edges[metadata.id].parent_thread_id == spawned_by->0
                &&& final(runtime)@.spawn_edges[metadata.id].child_thread_id == metadata.id
                &&& final(runtime)@.spawn_edges[metadata.id].status == DirectionalThreadSpawnEdgeStatus::Open
            }
        },
        spawned_by is None || result is Err ==> final(runtime)@.spawn_edges == old(runtime)@.spawn_edges,
        forall|other: ThreadId| other != metadata.id && #[trigger] old(runtime)@.spawn_edges.contains_key(other) ==> final(runtime)@.spawn_edges[other]
            == old(runtime)@.spawn_edges[other],
{
}

/// What is read of a thread is what is stored of it.
pub proof fn law_thread_is_read_as_stored(
    runtime: &StateRuntime,
    id: ThreadId,
    read: Result<Option<ThreadMetadata>, ThreadStoreError>,
    resume: Option<ThreadResumeMetadata>,
    mode: Result<Option<String>, ThreadStoreError>,
)
    requires
        call_ensures(StateRuntime::get_thread, (runtime, id), read),
        call_ensures(StateRuntime::get_thread_resume_metadata, (runtime, id), resume),
        call_ensures(StateRuntime::get_thread_memory_mode, (runtime, id), mode),
    ensures
        read is Ok <==> runtime@.backend is Sqlite,
        mode is Ok <==> runtime@.backend is Sqlite,
        read is Ok ==> (read->Ok_0 is Some <==> runtime@.threads.contains_key(id)),
        read is Ok && read->Ok_0 is Some ==> read->Ok_0->0 == runtime@.threads[id].metadata,
        mode is Ok ==> (mode->Ok_0 is Some <==> runtime@.threads.contains_key(id)),
        mode is Ok && mode->Ok_0 is Some ==> mode->Ok_0->0 == runtime@.threads[id].memory_mode,
        resume is Some <==> runtime@.threads.contains_key(id),
        resume is Some ==> resume->0.cwd == runtime@.threads[id].metadata.cwd && resume->0.model == runtime@.threads[id].metadata.model,
{
}

/// Pinning changes whether a thread is pinned, and nothing else.
pub proof fn law_pin_is_set(runtime: &mut StateRuntime, id: ThreadId, is_pinned: bool, changed: bool)
    requires
        call_ensures(StateRuntime::update_thread_pin, (runtime, id, is_pinned), changed),
        old(runtime)@.keyed(),
    ensures
        changed <==> old(runtime)@.threads.contains_key(id),
        other_threads_stay(old(runtime)@, final(runtime)@, id),
        final(runtime)@.threads.dom() == old(runtime)@.threads.dom(),
        changed ==> {
            let before = old(runtime)@.threads[id];
            let after = final(runtime)@.threads[id];
            &&& after.metadata.is_pinned == is_pinned
            &&& tells_the_same(ThreadMetadata { is_pinned: before.metadata.is_pinned, ..after.metadata }, before.metadata)
            &&& after.metadata.updated_at == before.metadata.updated_at
            &&& after.metadata.recency_at == before.metadata.recency_at
            &&& after.metadata.section == before.metadata.section
            &&& after.memory_mode == before.memory_mode
        },
{
    assert(final(runtime)@.threads.dom() =~= old(runtime)@.threads.dom());
}

/// The memory mode that is set is the one of the thread then. Nothing else of it changes.
pub proof fn law_memory_mode_is_set(runtime: &mut StateRuntime, id: ThreadId, mode: &str, result: Result<bool, ThreadStoreError>)
    requires
        call_ensures(StateRuntime::set_thread_memory_mode, (runtime, id, mode), result),
    ensures
        result is Ok <==> old(runtime)@.backend is Sqlite,
        other_threads_stay(old(runtime)@, final(runtime)@, id),
        result is Ok ==> result->Ok_0 == old(runtime)@.threads.contains_key(id),
        result is Ok && result->Ok_0 ==> {
            let before = old(runtime)@.threads[id];
            let after = final(runtime)@.threads[id];
            &&& after.memory_mode@ == mode@
            &&& after.metadata == before.metadata
            &&& after.memory_mode_ordinal == before.memory_mode_ordinal
            &&& after.stream_version == before.stream_version
            &&& after.polluted_at_stream_version == before.polluted_at_stream_version
        },
        !(result is Ok && result->Ok_0) ==> final(runtime)@ == old(runtime)@,
{
}

/// The title that is set is the one of the thread then. Its name, its times and its memory mode stay.
pub proof fn law_title_is_set(runtime: &mut StateRuntime, id: ThreadId, title: &str, result: Result<bool, ThreadStoreError>)
    requires
        call_ensures(StateRuntime::update_thread_title, (runtime, id, title), result),
    ensures
        result is Ok <==> old(runtime)@.backend is Sqlite,
        other_threads_stay(old(runtime)@, final(runtime)@, id),
        result is Ok ==> result->Ok_0 == old(runtime)@.threads.contains_key(id),
        result is Ok && result->Ok_0 ==> {
            let before = old(runtime)@.threads[id];
            let after = final(runtime)@.threads[id];
            &&& after.metadata.title@ == title@
            &&& tells_the_same(ThreadMetadata { title: before.metadata.title, ..after.metadata }, before.metadata)
            &&& after.metadata.updated_at == before.metadata.updated_at
            &&& after.metadata.recency_at == before.metadata.recency_at
            &&& after.metadata.preview == before.metadata.preview
            &&& after.memory_mode == before.memory_mode
        },
        !(result is Ok && result->Ok_0) ==> final(runtime)@ == old(runtime)@,
{
}

/// The name that is set is the one of the thread then, or it has none. Its title, its times and its memory
/// mode stay.
pub proof fn law_name_is_set(runtime: &mut StateRuntime, id: ThreadId, name: Option<&str>, result: Result<bool, ThreadStoreError>)
    requires
        call_ensures(StateRuntime::update_thread_name, (runtime, id, name), result),
    ensures
        result is Ok <==> old(runtime)@.backend is Sqlite,
        other_threads_stay(old(runtime)@, final(runtime)@, id),
        result is Ok ==> result->Ok_0 == old(runtime)@.threads.contains_key(id),
        result is Ok && result->Ok_0 ==> {
            let before = old(runtime)@.threads[id];
            let after = final(runtime)@.threads[id];
            &&& after.metadata.name is Some <==> name is Some
            &&& name is Some ==> after.metadata.name->0@ == name->0@
            &&& tells_the_same(ThreadMetadata { name: before.metadata.name, ..after.metadata }, before.metadata)
            &&& after.metadata.updated_at == before.metadata.updated_at
            &&& after.metadata.recency_at == before.metadata.recency_at
            &&& after.metadata.preview == before.metadata.preview
            &&& after.memory_mode == before.memory_mode
        },
        !(result is Ok && result->Ok_0) ==> final(runtime)@ == old(runtime)@,
{
}

/// A touched thread has the time of update that is given out for it. Its other times and everything else
/// stay.
pub proof fn law_touch_sets_the_time_of_update(runtime: &mut StateRuntime, id: ThreadId, updated_at: i64, result: Result<bool, ThreadStoreError>)
    requires
        call_ensures(StateRuntime::touch_thread_updated_at, (runtime, id, updated_at), result),
    ensures
        other_threads_stay(old(runtime)@, final(runtime)@, id),
        final(runtime)@.spawn_edges == old(runtime)@.spawn_edges,
        final(runtime)@.recency_at_mark == old(runtime)@.recency_at_mark,
        old(runtime)@.backend is Postgresql ==> result is Err,
        old(runtime)@.backend is Sqlite && updated_at > old(runtime)@.updated_at_mark && is_a_date(updated_at) ==> result is Ok,
        result is Ok ==> result->Ok_0 == old(runtime)@.threads.contains_key(id),
        result is Ok && result->Ok_0 ==> {
            let before = old(runtime)@.threads[id];
            let after = final(runtime)@.threads[id];
            &&& is_given_out(old(runtime)@.updated_at_mark, updated_at, after.metadata.updated_at)
            &&& tells_the_same(after.metadata, before.metadata)
            &&& after.metadata.recency_at == before.metadata.recency_at
            &&& after.metadata.preview == before.metadata.preview
            &&& after.metadata.archived_at == before.metadata.archived_at
            &&& after.memory_mode == before.memory_mode
        },
        !(result is Ok && result->Ok_0) ==> final(runtime)@.threads == old(runtime)@.threads,
{
}

/// A used thread is more recent than it was, and is as recent as was asked for where that is later. Its time
/// of update and everything else stay.
pub proof fn law_use_makes_a_thread_more_recent(runtime: &mut StateRuntime, id: ThreadId, recency_at: i64, result: Result<bool, ThreadStoreError>)
    requires
        call_ensures(StateRuntime::touch_thread_recency_at, (runtime, id, recency_at), result),
    ensures
        other_threads_stay(old(runtime)@, final(runtime)@, id),
        final(runtime)@.spawn_edges == old(runtime)@.spawn_edges,
        final(runtime)@.updated_at_mark == old(runtime)@.updated_at_mark,
        old(runtime)@.backend is Postgresql ==> result is Err,
        old(runtime)@.backend is Sqlite && recency_at > old(runtime)@.recency_at_mark && is_a_date(recency_at) ==> result is Ok,
        result is Ok ==> result->Ok_0 == old(runtime)@.threads.contains_key(id),
        result is Ok && result->Ok_0 ==> {
            let before = old(runtime)@.threads[id];
            let after = final(runtime)@.threads[id];
            &&& before.metadata.recency_at < i64::MAX ==> after.metadata.recency_at > before.metadata.recency_at
            &&& recency_at > old(runtime)@.recency_at_mark && recency_at > before.metadata.recency_at ==> after.metadata.recency_at == recency_at
            &&& recency_at <= old(runtime)@.recency_at_mark - 1000 && recency_at <= before.metadata.recency_at < i64::MAX ==> after.metadata.recency_at
                == before.metadata.recency_at + 1
            &&& tells_the_same(after.metadata, before.metadata)
            &&& after.metadata.updated_at == before.metadata.updated_at
            &&& after.metadata.preview == before.metadata.preview
            &&& after.metadata.archived_at == before.metadata.archived_at
            &&& after.memory_mode == before.memory_mode
        },
        !(result is Ok && result->Ok_0) ==> final(runtime)@.threads == old(runtime)@.threads,
{
}

/// A thread turns to paginated history once, and never back.
pub proof fn law_thread_turns_paginated(runtime: &mut StateRuntime, id: ThreadId, changed: bool)
    requires
        call_ensures(StateRuntime::mark_thread_paginated, (runtime, id), changed),
    ensures
        changed <==> old(runtime)@.threads.contains_key(id) && old(runtime)@.threads[id].metadata.history_mode == ThreadHistoryMode::Legacy,
        other_threads_stay(old(runtime)@, final(runtime)@, id),
        !changed ==> final(runtime)@ == old(runtime)@,
        old(runtime)@.threads.contains_key(id) ==> {
            let before = old(runtime)@.threads[id];
            let after = final(runtime)@.threads[id];
            &&& after.metadata.history_mode == ThreadHistoryMode::Paginated
            &&& tells_the_same(ThreadMetadata { history_mode: before.metadata.history_mode, ..after.metadata }, before.metadata)
            &&& after.metadata.updated_at == before.metadata.updated_at
            &&& after.memory_mode == before.memory_mode
        },
{
}

/// A preview is set only where there is none. It is part of the given text; a text that starts and ends with
/// visible ASCII characters is set as it is, and one of spaces alone is not set.
pub proof fn law_preview_is_set_once(runtime: &mut StateRuntime, id: ThreadId, preview: &str, changed: bool)
    requires
        call_ensures(StateRuntime::set_thread_preview_if_empty, (runtime, id, preview), changed),
    ensures
        other_threads_stay(old(runtime)@, final(runtime)@, id),
        !changed ==> final(runtime)@ == old(runtime)@,
        changed ==> old(runtime)@.threads.contains_key(id) && (old(runtime)@.threads[id].metadata.preview is None || old(runtime)@.threads[id].metadata.preview->0@.len() == 0),
        changed ==> {
            let before = old(runtime)@.threads[id];
            let after = final(runtime)@.threads[id];
            &&& after.metadata.preview is Some
            &&& after.metadata.preview->0@.len() > 0
            &&& exists|from: int, to: int| 0 <= from <= to <= preview@.len() && after.metadata.preview->0@ == #[trigger] preview@.subrange(from, to)
            &&& preview@.len() > 0 && '!' <= preview@[0] <= '~' && '!' <= preview@[preview@.len() - 1] <= '~' ==> after.metadata.preview->0@ == preview@
            &&& tells_the_same(after.metadata, before.metadata)
            &&& after.metadata.updated_at == before.metadata.updated_at
            &&& after.memory_mode == before.memory_mode
        },
        (forall|i: int| 0 <= i < preview@.len() ==> #[trigger] preview@[i] == ' ') ==> !changed,
        preview@.len() > 0 && '!' <= preview@[0] <= '~' && old(runtime)@.threads.contains_key(id) && (old(runtime)@.threads[id].metadata.preview is None
            || old(runtime)@.threads[id].metadata.preview->0@.len() == 0) ==> changed,
{
    let text = preview@;
    assert(exists|trimmed: Seq<char>| #[trigger] is_trimmed(text, trimmed) && {
        &&& changed == (trimmed.len() > 0 && super::metadata::thread_at(old(runtime)@, id) is Some && super::metadata::has_empty_preview(
            super::metadata::thread_at(old(runtime)@, id)->0.metadata,
        ))
        &&& if changed {
            let after = final(runtime)@.threads[id].metadata.preview;
            after is Some && after->0@ == trimmed
        } else {
            final(runtime)@ == old(runtime)@
        }
    });
    let trimmed = choose|trimmed: Seq<char>| #[trigger] is_trimmed(text, trimmed) && {
        &&& changed == (trimmed.len() > 0 && super::metadata::thread_at(old(runtime)@, id) is Some && super::metadata::has_empty_preview(
            super::metadata::thread_at(old(runtime)@, id)->0.metadata,
        ))
        &&& if changed {
            let after = final(runtime)@.threads[id].metadata.preview;
            after is Some && after->0@ == trimmed
        } else {
            final(runtime)@ == old(runtime)@
        }
    };
    let (from, to) = choose|from: int, to: int| #[trigger] trims(text, from, to) && trimmed == text.subrange(from, to);
    assert(trimmed == text.subrange(from, to));
    if text.len() > 0 && '!' <= text[0] <= '~' {
        assert(!is_space(text[0]));
        assert(from == 0);
        if '!' <= text[text.len() - 1] <= '~' {
            assert(!is_space(text[text.len() - 1]));
            assert(to == text.len());
            assert(trimmed =~= text);
        }
        if to == 0 {
            assert(is_space(text[0]));
        }
    }
    if forall|i: int| 0 <= i < text.len() ==> #[trigger] text[i] == ' ' {
        assert(is_space(' '));
        if from < to {
            assert(text[from] == ' ');
        }
    }
}

/// A thread is shown with its preview, or else with the first message of its user, or else with nothing.
pub proof fn law_shown_text(metadata: &ThreadMetadata, text: String)
    requires
        call_ensures(super::metadata::metadata_preview, (metadata,), text),
    ensures
        metadata.preview is Some ==> text@ == metadata.preview->0@,
        metadata.preview is None && metadata.first_user_message is Some ==> text@ == metadata.first_user_message->0@,
        metadata.preview is None && metadata.first_user_message is None ==> text@.len() == 0,
{
}

} // verus!
