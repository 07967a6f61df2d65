//! Deleting threads with everything that belongs to them.

use super::relations::ids_ascend;
use super::relations::is_descendant;
use super::relations::is_descendant_list;
use super::section_order::ThreadsAmong;
use super::StateRuntime;
use super::StateRuntimeView;
use crate::backend::RuntimeStateBackend;
use crate::goals::error::error_text;
use crate::goals::error::GoalStoreFailure;
use crate::goals::unavailable;
use crate::goals::GoalStoreError;
use crate::goals::GoalStoreOperation;
use crate::goals::GoalStoreView;
use crate::log_store::LogStoreError;
use crate::log_store::LogStoreView;
use crate::log_store::StoredLog;
use crate::memory_store::startup::forgetting;
use crate::memory_store::MemoryStoreError;
use crate::memory_store::MemoryStoreView;
use crate::outside::now_millis;
use crate::outside::thread_id_text;
use crate::outside::uuid_text;
use crate::table::rejected;
use crate::table::selected;
use crate::table::Condition;
use crate::thread_id::opt_view;
use crate::thread_id::ThreadId;
use crate::threads::ThreadRow;
use crate::threads::ThreadSpawnEdge;
use crate::time::whole_seconds_of;
use vstd::prelude::*;

verus! {

/// Why threads were not deleted. Their rows and edges are as they were.
#[derive(Debug)]
pub enum DeleteThreadsError {
    Logs(LogStoreError),
    Memory(MemoryStoreError),
    Goals(GoalStoreError),
}

impl DeleteThreadsError {
    pub open spec fn text(self) -> Seq<char> {
        match self {
            DeleteThreadsError::Logs(error) => error.text(),
            DeleteThreadsError::Memory(error) => error.text(),
            DeleteThreadsError::Goals(error) => error_text(error@.0, error@.1),
        }
    }

    pub fn message(&self) -> (text: String)
        ensures
            text@ == self.text(),
    {
        match self {
            DeleteThreadsError::Logs(error) => error.message(),
            DeleteThreadsError::Memory(error) => error.message(),
            DeleteThreadsError::Goals(error) => error.message(),
        }
    }
}

/// Which part of a deletion failed.
#[derive(Debug, PartialEq, Eq)]
pub enum DeleteFailure {
    /// The log store was closed.
    Logs,
    /// The memory store was closed, or what it counts is out of range.
    Memory(MemoryStoreError),
    /// The goal store was closed.
    Goals,
}

/// The edges from or to one of the given threads.
pub struct EdgesTouching<'a> {
    pub ids: &'a [ThreadId],
}

impl<'a> Condition<ThreadSpawnEdge> for EdgesTouching<'a> {
    open spec fn holds(&self, row: ThreadSpawnEdge) -> bool {
        self.ids@.contains(row.parent_thread_id) || self.ids@.contains(row.child_thread_id)
    }

    fn test(&self, row: &ThreadSpawnEdge) -> (held: bool) {
        holds_id(self.ids, row.parent_thread_id) || holds_id(self.ids, row.child_thread_id)
    }
}

fn holds_id(ids: &[ThreadId], id: ThreadId) -> (found: bool)
    ensures
        found == ids@.contains(id),
{
    let mut i: usize = 0;
    while i < ids.len()
        invariant
            i <= ids@.len(),
            forall|j: int| 0 <= j < i ==> #[trigger] ids@[j] != id,
        decreases ids@.len() - i,
    {
        if ids[i] == id {
            assert(ids@[i as int] == id);
            return true;
        }
        i += 1;
    }
    false
}

/// `sorted` holds the given identifiers, smallest first and each once.
pub open spec fn is_sorted_ids(given: Seq<ThreadId>, sorted: Seq<ThreadId>) -> bool {
    &&& ids_ascend(sorted)
    &&& forall|id: ThreadId| #[trigger] sorted.contains(id) <==> given.contains(id)
}

/// Puts an identifier in its place unless it is there.
fn insert_id(sorted: &mut Vec<ThreadId>, id: ThreadId)
    requires
        ids_ascend(old(sorted)@),
    ensures
        ids_ascend(final(sorted)@),
        forall|other: ThreadId| #[trigger] final(sorted)@.contains(other) <==> old(sorted)@.contains(other) || other == id,
{
    let ghost before = sorted@;
    let mut at: usize = 0;
    while at < sorted.len() && sorted[at].value < id.value
        invariant
            sorted@ == before,
            at <= before.len(),
            forall|i: int| 0 <= i < at ==> (#[trigger] before[i]).value < id.value,
        decreases before.len() - at,
    {
        at += 1;
    }
    if at < sorted.len() && sorted[at].value == id.value {
        assert(before[at as int] == id);
        return;
    }
    sorted.insert(at, id);
    proof {
        let after = sorted@;
        assert(after =~= before.take(at as int) + seq![id] + before.skip(at as int));
        assert forall|i: int, j: int| #![trigger after[i], after[j]] 0 <= i < j < after.len() implies after[i].value < after[j].value by {
            if j < at {
                assert(after[i] == before[i] && after[j] == before[j]);
            } else if j == at {
                assert(after[i] == before[i]);
            } else if i < at {
                assert(after[i] == before[i] && after[j] == before[j - 1]);
            } else if i == at {
                assert(after[j] == before[j - 1]);
                assert(before[at as int].value > id.value);
                if j - 1 > at {
                    assert(before[at as int].value < before[j - 1].value);
                }
            } else {
                assert(after[i] == before[i - 1] && after[j] == before[j - 1]);
            }
        }
        assert forall|other: ThreadId| #[trigger] after.contains(other) <==> before.contains(other) || other == id by {
            if after.contains(other) {
                let i = choose|i: int| 0 <= i < after.len() && after[i] == other;
                if i < at {
                    assert(before[i] == other);
                } else if i > at {
                    assert(before[i - 1] == other);
                }
            }
            if before.contains(other) {
                let i = choose|i: int| 0 <= i < before.len() && before[i] == other;
                if i < at {
                    assert(after[i] == other);
                } else {
                    assert(after[i + 1] == other);
                }
            }
            if other == id {
                assert(after[at as int] == other);
            }
        }
    }
}

/// The given identifiers, smallest first and each once.
pub fn sorted_ids(given: &[ThreadId]) -> (sorted: Vec<ThreadId>)
    ensures
        is_sorted_ids(given@, sorted@),
{
    let mut sorted: Vec<ThreadId> = Vec::new();
    let mut i: usize = 0;
    while i < given.len()
        invariant
            i <= given@.len(),
            is_sorted_ids(given@.take(i as int), sorted@),
        decreases given@.len() - i,
    {
        insert_id(&mut sorted, given[i]);
        assert forall|id: ThreadId| #[trigger] sorted@.contains(id) <==> given@.take(i + 1).contains(id) by {
            let earlier = given@.take(i as int);
            let later = given@.take(i + 1);
            assert(later =~= earlier.push(given@[i as int]));
            crate::sequences::lemma_push_members(earlier, given@[i as int], id);
        }
        i += 1;
    }
    assert(given@.take(i as int) =~= given@);
    sorted
}

/// The state without the logs of a thread.
pub open spec fn without_logs(state: StateRuntimeView, thread_id: ThreadId) -> StateRuntimeView {
    StateRuntimeView {
        logs: LogStoreView {
            rows: state.logs.rows.filter(|row: StoredLog| opt_view(row.thread_id) != Some(uuid_text(thread_id.value))),
            ..state.logs
        },
        ..state
    }
}

/// The state with other memory.
pub open spec fn with_memories(state: StateRuntimeView, memories: MemoryStoreView) -> StateRuntimeView {
    StateRuntimeView { memories, ..state }
}

/// The state without the goal of a thread.
pub open spec fn without_goal(state: StateRuntimeView, thread_id: ThreadId) -> StateRuntimeView {
    StateRuntimeView { goals: GoalStoreView { goals: state.goals.goals.remove(thread_id), ..state.goals }, ..state }
}

/// What belongs to the threads is removed, thread by thread: logs, memory, goals. It stops where
/// a part fails.
pub open spec fn clearing(state: StateRuntimeView, ids: Seq<ThreadId>, now: i64) -> (StateRuntimeView, Option<DeleteFailure>)
    decreases ids.len(),
{
    if ids.len() == 0 {
        (state, None)
    } else {
        let id = ids[0];
        let unlogged = without_logs(state, id);
        match state.backend {
            RuntimeStateBackend::Postgresql => {
                let memories = MemoryStoreView {
                    jobs: state.memories.jobs.remove(id),
                    outputs: state.memories.outputs.remove(id),
                    ..state.memories
                };
                clearing(without_goal(with_memories(unlogged, memories), id), ids.skip(1), now)
            },
            RuntimeStateBackend::Sqlite => if state.logs.closed {
                (state, Some(DeleteFailure::Logs))
            } else if state.memories.closed {
                (unlogged, Some(DeleteFailure::Memory(MemoryStoreError::Closed)))
            } else {
                match forgetting(state.memories, id, now) {
                    None => (unlogged, Some(DeleteFailure::Memory(MemoryStoreError::OutOfRange))),
                    Some(memories) => {
                        let forgotten = with_memories(unlogged, memories);
                        if state.goals.closed {
                            (forgotten, Some(DeleteFailure::Goals))
                        } else {
                            clearing(without_goal(forgotten, id), ids.skip(1), now)
                        }
                    },
                }
            },
        }
    }
}

/// What deleting the threads `ids`, given in order, leads to: what belongs to them goes first, the
/// edges and the rows last, so that a failed deletion can be repeated. In a shared database a
/// deletion is one step that fails as a whole.
pub open spec fn deleting(
    state: StateRuntimeView,
    ids: &[ThreadId],
    now: i64,
    after: StateRuntimeView,
    result: Result<u64, DeleteFailure>,
) -> bool {
    if ids@.len() == 0 {
        after == state && result == Ok::<u64, DeleteFailure>(0)
    } else if state.backend is Postgresql && state.goals.closed {
        after == state && result == Err::<u64, DeleteFailure>(DeleteFailure::Goals)
    } else if state.backend is Postgresql && state.memories.closed {
        after == state && result == Err::<u64, DeleteFailure>(DeleteFailure::Memory(MemoryStoreError::Closed))
    } else if state.backend is Postgresql && state.logs.closed {
        after == state && result == Err::<u64, DeleteFailure>(DeleteFailure::Logs)
    } else {
        let (cleared, failure) = clearing(state, ids@, now);
        match failure {
            Some(failure) => after == cleared && result == Err::<u64, DeleteFailure>(failure),
            None => {
                &&& after == (StateRuntimeView {
                    threads: rejected::<ThreadRow, ThreadsAmong>(state.threads, ThreadsAmong { ids }),
                    spawn_edges: rejected::<ThreadSpawnEdge, EdgesTouching>(state.spawn_edges, EdgesTouching { ids }),
                    ..cleared
                })
                &&& result is Ok
                &&& result->Ok_0 == selected::<ThreadRow, ThreadsAmong>(state.threads, ThreadsAmong { ids }).dom().len()
            },
        }
    }
}

/// The result with the part that failed, and what is known of the error.
pub open spec fn is_deletion_result(result: Result<u64, DeleteThreadsError>, expected: Result<u64, DeleteFailure>) -> bool {
    match result {
        Ok(count) => expected == Ok::<u64, DeleteFailure>(count),
        Err(DeleteThreadsError::Logs(error)) => {
            expected == Err::<u64, DeleteFailure>(DeleteFailure::Logs) && error == LogStoreError::Closed
        },
        Err(DeleteThreadsError::Memory(error)) => expected == Err::<u64, DeleteFailure>(DeleteFailure::Memory(error)),
        Err(DeleteThreadsError::Goals(error)) => {
            expected == Err::<u64, DeleteFailure>(DeleteFailure::Goals) && error@ == unavailable(GoalStoreOperation::DeleteThreadGoal)
        },
    }
}

/// Which part failed.
pub open spec fn failure_of(result: Result<u64, DeleteThreadsError>) -> Result<u64, DeleteFailure> {
    match result {
        Ok(count) => Ok(count),
        Err(DeleteThreadsError::Logs(_)) => Err(DeleteFailure::Logs),
        Err(DeleteThreadsError::Memory(error)) => Err(DeleteFailure::Memory(error)),
        Err(DeleteThreadsError::Goals(_)) => Err(DeleteFailure::Goals),
    }
}

impl StateRuntime {
    /// Deletes a thread with everything that belongs to it. Returns the number of threads deleted.
    pub fn delete_thread(&mut self, thread_id: ThreadId) -> (result: Result<u64, DeleteThreadsError>)
        ensures
            is_deletion_result(result, failure_of(result)),
            exists|now: i64, sorted: &[ThreadId]| is_sorted_ids(seq![thread_id], sorted@) && #[trigger] deleting(old(self)@, sorted, now, final(self)@, failure_of(result)),
    {
        let mut ids: Vec<ThreadId> = Vec::new();
        ids.push(thread_id);
        assert(ids@ =~= seq![thread_id]);
        self.delete_threads_strict(ids.as_slice())
    }

    /// Deletes threads with everything that belongs to them. Returns the number of threads
    /// deleted.
    pub fn delete_threads_strict(&mut self, thread_ids: &[ThreadId]) -> (result: Result<u64, DeleteThreadsError>)
        ensures
            is_deletion_result(result, failure_of(result)),
            exists|now: i64, sorted: &[ThreadId]| is_sorted_ids(thread_ids@, sorted@) && #[trigger] deleting(old(self)@, sorted, now, final(self)@, failure_of(result)),
    {
        let now: i64 = whole_seconds_of(now_millis());
        self.delete_threads_strict_at(thread_ids, now)
    }

    /// Deletes threads at the given time, in seconds.
    pub fn delete_threads_strict_at(&mut self, thread_ids: &[ThreadId], now: i64) -> (result: Result<u64, DeleteThreadsError>)
        ensures
            is_deletion_result(result, failure_of(result)),
            exists|sorted: &[ThreadId]| is_sorted_ids(thread_ids@, sorted@) && #[trigger] deleting(old(self)@, sorted, now, final(self)@, failure_of(result)),
    {
        let sorted = sorted_ids(thread_ids);
        let ids = sorted.as_slice();
        assert(is_sorted_ids(thread_ids@, ids@));
        let result = self.delete_sorted_threads(ids, now);
        assert(deleting(old(self)@, ids, now, self@, failure_of(result)));
        result
    }

    fn delete_sorted_threads(&mut self, ids: &[ThreadId], now: i64) -> (result: Result<u64, DeleteThreadsError>)
        ensures
            is_deletion_result(result, failure_of(result)),
            deleting(old(self)@, ids, now, final(self)@, failure_of(result)),
    {
        if ids.len() == 0 {
            return Ok(0);
        }
        if matches!(self.backend, RuntimeStateBackend::Postgresql) && self.goals.is_closed() {
            return Err(DeleteThreadsError::Goals(GoalStoreError::from_source(GoalStoreOperation::DeleteThreadGoal, GoalStoreFailure::Unavailable)));
        }
        if matches!(self.backend, RuntimeStateBackend::Postgresql) && self.memories.is_closed() {
            return Err(DeleteThreadsError::Memory(MemoryStoreError::Closed));
        }
        if matches!(self.backend, RuntimeStateBackend::Postgresql) && self.logs.is_closed() {
            return Err(DeleteThreadsError::Logs(LogStoreError::Closed));
        }
        let ghost start = self@;
        let mut i: usize = 0;
        assert(ids@.skip(0) =~= ids@);
        while i < ids.len()
            invariant
                i <= ids@.len(),
                ids@.len() > 0,
                start == old(self)@,
                start.backend is Postgresql ==> !start.goals.closed && !start.memories.closed && !start.logs.closed,
                self@.goals.closed == start.goals.closed,
                self@.memories.closed == start.memories.closed,
                self@.logs.closed == start.logs.closed,
                self@.backend == start.backend,
                self@.threads == start.threads,
                self@.spawn_edges == start.spawn_edges,
                clearing(self@, ids@.skip(i as int), now) == clearing(start, ids@, now),
            decreases ids@.len() - i,
        {
            let id = ids[i];
            let ghost rest = ids@.skip(i as int);
            assert(rest[0] == id);
            assert(rest.skip(1) =~= ids@.skip(i + 1));
            let text = thread_id_text(id);
            match self.logs.delete_logs_for_thread(text.as_str()) {
                Ok(_) => {},
                Err(error) => {
                    return Err(DeleteThreadsError::Logs(error));
                },
            }
            if matches!(self.backend, RuntimeStateBackend::Postgresql) {
                self.memories.drop_thread_rows(id);
            } else {
                match self.memories.delete_thread_memory(id, now) {
                    Ok(_) => {},
                    Err(error) => {
                        return Err(DeleteThreadsError::Memory(error));
                    },
                }
            }
            match self.goals.delete_thread_goal(id) {
                Ok(_) => {},
                Err(error) => {
                    return Err(DeleteThreadsError::Goals(error));
                },
            }
            i += 1;
        }
        self.spawn_edges.remove_where(&EdgesTouching { ids });
        let removed: usize = self.threads.remove_where(&ThreadsAmong { ids });
        Ok(removed as u64)
    }

    /// A thread and the threads below it.
    pub fn thread_spawn_subtree(&self, root_thread_id: ThreadId) -> (ids: Vec<ThreadId>)
        ensures
            is_subtree_list(self@, root_thread_id, ids@),
    {
        let mut descendants = self.list_thread_spawn_descendants(root_thread_id);
        let ghost nearest = descendants@;
        if matches!(self.backend, RuntimeStateBackend::Postgresql) {
            descendants = sorted_ids(descendants.as_slice());
            assert forall|id: ThreadId| #[trigger] descendants@.contains(id) <==> is_descendant(self@.spawn_edges, root_thread_id, id) by {
                assert(descendants@.contains(id) <==> nearest.contains(id));
            }
        }
        let ghost below = descendants@;
        let mut ids: Vec<ThreadId> = Vec::new();
        ids.push(root_thread_id);
        ids.append(&mut descendants);
        assert(ids@.skip(1) =~= below);
        ids
    }

    /// Deletes a thread and all threads below it, with everything that belongs to them. Returns
    /// the threads deleted, the given one first.
    pub fn delete_thread_spawn_subtree_strict(&mut self, root_thread_id: ThreadId) -> (result: Result<Vec<ThreadId>, DeleteThreadsError>)
        ensures
            exists|now: i64| #[trigger] deletes_subtree(old(self)@, root_thread_id, now, final(self)@, result),
    {
        let now: i64 = whole_seconds_of(now_millis());
        self.delete_thread_spawn_subtree_strict_at(root_thread_id, now)
    }

    /// Deletes a thread and all threads below it at the given time, in seconds.
    pub fn delete_thread_spawn_subtree_strict_at(&mut self, root_thread_id: ThreadId, now: i64) -> (result: Result<Vec<ThreadId>, DeleteThreadsError>)
        ensures
            deletes_subtree(old(self)@, root_thread_id, now, final(self)@, result),
    {
        let ids = self.thread_spawn_subtree(root_thread_id);
        match self.delete_threads_strict_at(ids.as_slice(), now) {
            Ok(count) => Ok(ids),
            Err(error) => {
                assert(is_subtree_list(old(self)@, root_thread_id, ids@));
                Err(error)
            },
        }
    }
}

/// `listed` holds the thread and, after it, those below it: nearest first or, in a shared
/// database, smallest identifier first.
pub open spec fn is_subtree_list(state: StateRuntimeView, root: ThreadId, listed: Seq<ThreadId>) -> bool {
    &&& listed.len() > 0
    &&& listed[0] == root
    &&& match state.backend {
        RuntimeStateBackend::Sqlite => is_descendant_list(state.spawn_edges, root, listed.skip(1)),
        RuntimeStateBackend::Postgresql => {
            &&& ids_ascend(listed.skip(1))
            &&& forall|id: ThreadId| #[trigger] listed.skip(1).contains(id) <==> is_descendant(state.spawn_edges, root, id)
        },
    }
}

/// The subtree was deleted and is returned, or the deletion failed.
pub open spec fn deletes_subtree(
    state: StateRuntimeView,
    root: ThreadId,
    now: i64,
    after: StateRuntimeView,
    result: Result<Vec<ThreadId>, DeleteThreadsError>,
) -> bool {
    exists|listed: Seq<ThreadId>, sorted: &[ThreadId], count: Result<u64, DeleteFailure>| {
        &&& #[trigger] is_subtree_list(state, root, listed)
        &&& #[trigger] is_sorted_ids(listed, sorted@)
        &&& #[trigger] deleting(state, sorted, now, after, count)
        &&& match result {
            Ok(ids) => count is Ok && ids@ == listed,
            Err(error) => is_deletion_result(Err(error), count),
        }
    }
}

} // verus!
