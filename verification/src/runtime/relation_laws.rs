//! Laws of relations between threads and of deletion.

use super::deletion::clearing;
use super::deletion::deletes_subtree;
use super::deletion::deleting;
use super::deletion::is_deletion_result;
use super::deletion::is_sorted_ids;
use super::deletion::is_subtree_list;
use super::deletion::without_goal;
use super::deletion::without_logs;
use super::deletion::DeleteFailure;
use super::deletion::DeleteThreadsError;
use super::relations::at_depth;
use super::relations::is_child_list;
use super::relations::is_descendant;
use super::relations::is_descendant_list;
use super::relations::is_nearer;
use super::relations::lemma_one_depth;
use super::relations::with_edge;
use super::relations::with_edge_if_absent;
use super::StateRuntimeView;
use crate::backend::RuntimeStateBackend;
use crate::log_store::StoredLog;
use crate::memory_store::startup::forgetting;
use crate::outside::uuid_text;
use crate::sequences::lemma_filter_members;
use crate::thread_id::opt_view;
use crate::thread_id::ThreadId;
use crate::threads::DirectionalThreadSpawnEdgeStatus;
use crate::threads::ThreadSpawnEdge;
use vstd::prelude::*;

verus! {

/// The descendants of a thread never include the thread, and each is listed once.
pub proof fn law_descendants_are_listed_once(edges: Map<ThreadId, ThreadSpawnEdge>, root: ThreadId, listed: Seq<ThreadId>)
    requires
        is_descendant_list(edges, root, listed),
    ensures
        !listed.contains(root),
        listed.no_duplicates(),
{
    if listed.contains(root) {
        let depth = choose|depth: nat| depth > 0 && #[trigger] at_depth(edges, root, root, depth);
        assert(at_depth(edges, root, root, 0));
        lemma_one_depth(edges, root, root, 0, depth);
    }
    assert forall|i: int, j: int| 0 <= i < j < listed.len() implies listed[i] != listed[j] by {
        assert(is_nearer(edges, root, listed[i], listed[j]));
        if listed[i] == listed[j] {
            let (near, far) = choose|near: nat, far: nat| #[trigger]
                at_depth(edges, root, listed[i], near) && #[trigger] at_depth(edges, root, listed[j], far) && (near < far || near == far && listed[i].value
                    < listed[j].value);
            lemma_one_depth(edges, root, listed[i], near, far);
        }
    }
}

/// The threads that a thread spawned are among those below it, and so is whatever is below them.
pub proof fn law_descendants_contain_children(edges: Map<ThreadId, ThreadSpawnEdge>, root: ThreadId, child: ThreadId)
    requires
        edges.contains_key(child),
        child != root,
        edges[child].parent_thread_id == root || is_descendant(edges, root, edges[child].parent_thread_id),
    ensures
        is_descendant(edges, root, child),
{
    let parent = edges[child].parent_thread_id;
    if parent == root {
        assert(at_depth(edges, root, parent, 0));
        assert(at_depth(edges, root, child, 1));
    } else {
        let depth = choose|depth: nat| depth > 0 && #[trigger] at_depth(edges, root, parent, depth);
        assert(at_depth(edges, root, child, depth + 1));
    }
}

/// A thread has one parent: storing an edge replaces the one that the spawned thread had, and
/// leaves the edges of all other threads as they are.
pub proof fn law_thread_has_one_parent(state: StateRuntimeView, edge: ThreadSpawnEdge, other: ThreadId)
    ensures
        with_edge(state, edge).spawn_edges[edge.child_thread_id] == edge,
        other != edge.child_thread_id ==> (with_edge(state, edge).spawn_edges.contains_key(other) <==> state.spawn_edges.contains_key(other)),
        other != edge.child_thread_id && state.spawn_edges.contains_key(other) ==> with_edge(state, edge).spawn_edges[other] == state.spawn_edges[other],
        state.spawn_edges.contains_key(edge.child_thread_id) ==> with_edge_if_absent(state, edge.parent_thread_id, edge.child_thread_id) == state,
{
}

proof fn lemma_clearing(state: StateRuntimeView, ids: Seq<ThreadId>, now: i64, id: ThreadId)
    ensures
        ({
            let (after, failure) = clearing(state, ids, now);
            &&& after.backend == state.backend
            &&& after.threads == state.threads
            &&& after.sections == state.sections
            &&& after.spawn_edges == state.spawn_edges
            &&& after.updated_at_mark == state.updated_at_mark
            &&& after.recency_at_mark == state.recency_at_mark
            &&& after.backfill == state.backfill
            &&& after.imports == state.imports
            &&& after.enrollments == state.enrollments
            &&& failure is None && ids.contains(id) ==> {
                &&& !after.goals.goals.contains_key(id)
                &&& !after.memories.jobs.contains_key(id)
                &&& !after.memories.outputs.contains_key(id)
            }
            &&& !state.goals.goals.contains_key(id) ==> !after.goals.goals.contains_key(id)
            &&& !state.memories.jobs.contains_key(id) ==> !after.memories.jobs.contains_key(id)
            &&& !state.memories.outputs.contains_key(id) ==> !after.memories.outputs.contains_key(id)
            &&& !ids.contains(id) ==> {
                &&& after.goals.goals.contains_key(id) <==> state.goals.goals.contains_key(id)
                &&& state.goals.goals.contains_key(id) ==> after.goals.goals[id] == state.goals.goals[id]
                &&& after.memories.jobs.contains_key(id) <==> state.memories.jobs.contains_key(id)
                &&& state.memories.jobs.contains_key(id) ==> after.memories.jobs[id] == state.memories.jobs[id]
                &&& after.memories.outputs.contains_key(id) <==> state.memories.outputs.contains_key(id)
                &&& state.memories.outputs.contains_key(id) ==> after.memories.outputs[id] == state.memories.outputs[id]
            }
        }),
    decreases ids.len(),
{
    if ids.len() > 0 {
        let first = ids[0];
        let rest = ids.skip(1);
        assert(ids.contains(first));
        assert(ids.contains(id) <==> id == first || rest.contains(id)) by {
            if ids.contains(id) && id != first {
                let i = choose|i: int| 0 <= i < ids.len() && ids[i] == id;
                assert(rest[i - 1] == id);
            }
            if rest.contains(id) {
                let i = choose|i: int| 0 <= i < rest.len() && rest[i] == id;
                assert(ids[i + 1] == id);
            }
        }
        let unlogged = without_logs(state, first);
        match state.backend {
            RuntimeStateBackend::Postgresql => {
                let memories = crate::memory_store::MemoryStoreView {
                    jobs: state.memories.jobs.remove(first),
                    outputs: state.memories.outputs.remove(first),
                    ..state.memories
                };
                lemma_clearing(without_goal(super::deletion::with_memories(unlogged, memories), first), rest, now, id);
            },
            RuntimeStateBackend::Sqlite => {
                if let Some(memories) = forgetting(state.memories, first, now) {
                    if !state.logs.closed && !state.memories.closed && !state.goals.closed {
                        lemma_clearing(without_goal(super::deletion::with_memories(unlogged, memories), first), rest, now, id);
                    }
                }
            },
        }
    }
}

/// The log belongs to one of the threads.
pub open spec fn is_log_of(row: StoredLog, ids: Seq<ThreadId>) -> bool {
    exists|i: int| 0 <= i < ids.len() && opt_view(row.thread_id) == Some(uuid_text((#[trigger] ids[i]).value))
}

proof fn lemma_clearing_logs(state: StateRuntimeView, ids: Seq<ThreadId>, now: i64, row: StoredLog)
    ensures
        ({
            let (after, failure) = clearing(state, ids, now);
            &&& after.logs.rows.contains(row) ==> state.logs.rows.contains(row)
            &&& failure is None ==> (after.logs.rows.contains(row) <==> state.logs.rows.contains(row) && !is_log_of(row, ids))
        }),
    decreases ids.len(),
{
    if ids.len() > 0 {
        let first = ids[0];
        let rest = ids.skip(1);
        let keep = |row: StoredLog| opt_view(row.thread_id) != Some(uuid_text(first.value));
        lemma_filter_members(state.logs.rows, keep, row);
        assert(is_log_of(row, ids) <==> opt_view(row.thread_id) == Some(uuid_text(first.value)) || is_log_of(row, rest)) by {
            if is_log_of(row, ids) {
                let i = choose|i: int| 0 <= i < ids.len() && opt_view(row.thread_id) == Some(uuid_text((#[trigger] ids[i]).value));
                if i > 0 {
                    assert(rest[i - 1] == ids[i]);
                }
            }
            if is_log_of(row, rest) {
                let i = choose|i: int| 0 <= i < rest.len() && opt_view(row.thread_id) == Some(uuid_text((#[trigger] rest[i]).value));
                assert(ids[i + 1] == rest[i]);
            }
            if opt_view(row.thread_id) == Some(uuid_text(first.value)) {
                assert(ids[0] == first);
            }
        }
        let unlogged = without_logs(state, first);
        match state.backend {
            RuntimeStateBackend::Postgresql => {
                let memories = crate::memory_store::MemoryStoreView {
                    jobs: state.memories.jobs.remove(first),
                    outputs: state.memories.outputs.remove(first),
                    ..state.memories
                };
                lemma_clearing_logs(without_goal(super::deletion::with_memories(unlogged, memories), first), rest, now, row);
            },
            RuntimeStateBackend::Sqlite => {
                if let Some(memories) = forgetting(state.memories, first, now) {
                    if !state.logs.closed && !state.memories.closed && !state.goals.closed {
                        lemma_clearing_logs(without_goal(super::deletion::with_memories(unlogged, memories), first), rest, now, row);
                    }
                }
            },
        }
    }
}

/// After a deletion nothing of the deleted threads is left: neither rows, edges, goals, memory nor
/// logs. What belongs to other threads is as it was.
pub proof fn law_deleted_threads_leave_nothing(
    state: StateRuntimeView,
    ids: &[ThreadId],
    now: i64,
    after: StateRuntimeView,
    count: u64,
    id: ThreadId,
    row: StoredLog,
)
    requires
        state.keyed(),
        deleting(state, ids, now, after, Ok(count)),
    ensures
        after.threads.contains_key(id) <==> state.threads.contains_key(id) && !ids@.contains(id),
        after.threads.contains_key(id) ==> after.threads[id] == state.threads[id],
        after.spawn_edges.contains_key(id) <==> {
            &&& state.spawn_edges.contains_key(id)
            &&& !ids@.contains(id)
            &&& !ids@.contains(state.spawn_edges[id].parent_thread_id)
        },
        after.spawn_edges.contains_key(id) ==> after.spawn_edges[id] == state.spawn_edges[id],
        after.goals.goals.contains_key(id) <==> state.goals.goals.contains_key(id) && !ids@.contains(id),
        after.goals.goals.contains_key(id) ==> after.goals.goals[id] == state.goals.goals[id],
        after.memories.jobs.contains_key(id) <==> state.memories.jobs.contains_key(id) && !ids@.contains(id),
        after.memories.outputs.contains_key(id) <==> state.memories.outputs.contains_key(id) && !ids@.contains(id),
        after.logs.rows.contains(row) <==> state.logs.rows.contains(row) && !is_log_of(row, ids@),
        after.sections == state.sections,
        after.imports == state.imports,
        after.enrollments == state.enrollments,
        after.backfill == state.backfill,
{
    lemma_clearing(state, ids@, now, id);
    lemma_clearing_logs(state, ids@, now, row);
}

/// A deletion that failed can be repeated: the rows and the edges are all there, so that the same
/// threads are found again.
pub proof fn law_failed_deletion_can_be_repeated(
    state: StateRuntimeView,
    ids: &[ThreadId],
    now: i64,
    after: StateRuntimeView,
    failure: DeleteFailure,
    root: ThreadId,
    listed: Seq<ThreadId>,
)
    requires
        deleting(state, ids, now, after, Err(failure)),
        is_subtree_list(state, root, listed),
    ensures
        after.threads == state.threads,
        after.spawn_edges == state.spawn_edges,
        is_subtree_list(after, root, listed),
{
    lemma_clearing(state, ids@, now, root);
}

pub(super) proof fn lemma_failed_deletion(state: StateRuntimeView, ids: &[ThreadId], now: i64, after: StateRuntimeView, failure: DeleteFailure)
    requires
        deleting(state, ids, now, after, Err(failure)),
    ensures
        after.threads == state.threads,
        after.spawn_edges == state.spawn_edges,
{
    let root: ThreadId = arbitrary();
    lemma_clearing(state, ids@, now, root);
}

/// Deleting a subtree deletes the thread, all that is below it, and nothing else.
pub proof fn law_subtree_is_deleted_whole(
    state: StateRuntimeView,
    root: ThreadId,
    now: i64,
    after: StateRuntimeView,
    result: Result<Vec<ThreadId>, DeleteThreadsError>,
    id: ThreadId,
)
    requires
        state.keyed(),
        deletes_subtree(state, root, now, after, result),
        result is Ok,
    ensures
        after.threads.contains_key(id) <==> state.threads.contains_key(id) && id != root && !is_descendant(state.spawn_edges, root, id),
        result->Ok_0@.contains(id) <==> id == root || is_descendant(state.spawn_edges, root, id),
{
    let (listed, sorted, count) = choose|listed: Seq<ThreadId>, sorted: &[ThreadId], count: Result<u64, DeleteFailure>| {
        &&& #[trigger] is_subtree_list(state, root, listed)
        &&& #[trigger] is_sorted_ids(listed, sorted@)
        &&& #[trigger] deleting(state, sorted, now, after, count)
        &&& match result {
            Ok(ids) => count is Ok && ids@ == listed,
            Err(error) => is_deletion_result(Err(error), count),
        }
    };
    let below = listed.skip(1);
    assert(listed.contains(id) <==> id == root || below.contains(id)) by {
        if listed.contains(id) {
            let i = choose|i: int| 0 <= i < listed.len() && listed[i] == id;
            if i > 0 {
                assert(below[i - 1] == id);
            }
        }
        if below.contains(id) {
            let i = choose|i: int| 0 <= i < below.len() && below[i] == id;
            assert(listed[i + 1] == id);
        }
        if id == root {
            assert(listed[0] == id);
        }
    }
    assert(sorted@.contains(id) <==> listed.contains(id));
    let row: StoredLog = arbitrary();
    law_deleted_threads_leave_nothing(state, sorted, now, after, count->Ok_0, id, row);
}

/// The threads that a thread spawned, with a status, are among all that it spawned.
pub proof fn law_status_narrows_children(
    edges: Map<ThreadId, ThreadSpawnEdge>,
    parent: ThreadId,
    status: DirectionalThreadSpawnEdgeStatus,
    some: Seq<ThreadId>,
    all: Seq<ThreadId>,
    id: ThreadId,
)
    requires
        is_child_list(edges, parent, Some(status), some),
        is_child_list(edges, parent, None, all),
    ensures
        some.contains(id) <==> all.contains(id) && edges[id].status == status,
{
}

} // verus!
