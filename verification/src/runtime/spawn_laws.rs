//! Laws of spawned threads and of deletion, told in the edges and rows before and after.

use super::deletion::deleting;
use super::deletion::failure_of;
use super::deletion::is_sorted_ids;
use super::deletion::DeleteThreadsError;
use super::relation_laws::law_deleted_threads_leave_nothing;
use super::relation_laws::law_descendants_are_listed_once;
use super::relation_laws::law_descendants_contain_children;
use super::relation_laws::law_subtree_is_deleted_whole;
use super::relations::at_depth;
use super::relations::edges_with_status;
use super::relations::found_view;
use super::relations::has_path;
use super::relations::is_child_list;
use super::relations::is_descendant;
use super::relations::is_descendant_list;
use super::relations::is_nearer;
use super::relations::is_one_with_path;
use super::relations::lemma_one_depth;
use super::relations::ThreadRelationError;
use super::section_order::ThreadsAmong;
use super::StateRuntime;
use super::StateRuntimeView;
use crate::log_store::StoredLog;
use crate::outside::uuid_text;
use crate::table::selected;
use crate::thread_id::ThreadId;
use crate::threads::DirectionalThreadSpawnEdgeStatus;
use crate::threads::ThreadRow;
use crate::threads::ThreadSpawnEdge;
use vstd::prelude::*;

verus! {

/// A stored edge is the one that was given, in place of the one that the spawned thread had. A shared
/// database takes it only between threads that exist.
pub proof fn law_edge_is_stored(
    runtime: &mut StateRuntime,
    parent: ThreadId,
    child: ThreadId,
    status: DirectionalThreadSpawnEdgeStatus,
    result: Result<(), ThreadRelationError>,
)
    requires
        call_ensures(StateRuntime::upsert_thread_spawn_edge, (runtime, parent, child, status), result),
    ensures
        result is Err <==> old(runtime)@.backend is Postgresql && !(old(runtime)@.threads.contains_key(parent) && old(runtime)@.threads.contains_key(child)),
        result is Err ==> final(runtime)@ == old(runtime)@,
        final(runtime)@.threads == old(runtime)@.threads,
        result is Ok ==> {
            &&& final(runtime)@.spawn_edges.contains_key(child)
            &&& final(runtime)@.spawn_edges[child].parent_thread_id == parent
            &&& final(runtime)@.spawn_edges[child].child_thread_id == child
            &&& final(runtime)@.spawn_edges[child].status == status
            &&& forall|other: ThreadId| other != child ==> (#[trigger] final(runtime)@.spawn_edges.contains_key(other) <==> old(runtime)@.spawn_edges.contains_key(other))
            &&& forall|other: ThreadId| other != child && #[trigger] old(runtime)@.spawn_edges.contains_key(other) ==> final(runtime)@.spawn_edges[other]
                == old(runtime)@.spawn_edges[other]
        },
{
}

/// The status of an edge that is set is the one that was given; the parent stays. Without an edge nothing
/// happens.
pub proof fn law_edge_status_is_set(runtime: &mut StateRuntime, child: ThreadId, status: DirectionalThreadSpawnEdgeStatus)
    requires
        call_ensures(StateRuntime::set_thread_spawn_edge_status, (runtime, child, status), ()),
        old(runtime)@.keyed(),
    ensures
        !old(runtime)@.spawn_edges.contains_key(child) ==> final(runtime)@ == old(runtime)@,
        final(runtime)@.spawn_edges.dom() == old(runtime)@.spawn_edges.dom(),
        old(runtime)@.spawn_edges.contains_key(child) ==> {
            &&& final(runtime)@.spawn_edges[child].status == status
            &&& final(runtime)@.spawn_edges[child].parent_thread_id == old(runtime)@.spawn_edges[child].parent_thread_id
            &&& final(runtime)@.spawn_edges[child].child_thread_id == child
        },
        forall|other: ThreadId| other != child && #[trigger] old(runtime)@.spawn_edges.contains_key(other) ==> final(runtime)@.spawn_edges[other]
            == old(runtime)@.spawn_edges[other],
{
    assert(final(runtime)@.spawn_edges.dom() =~= old(runtime)@.spawn_edges.dom());
}

/// An edge that is inserted if absent is open, and never replaces one.
pub proof fn law_absent_edge_is_inserted(runtime: &mut StateRuntime, parent: ThreadId, child: ThreadId)
    requires
        call_ensures(StateRuntime::insert_thread_spawn_edge_if_absent, (runtime, parent, child), ()),
    ensures
        old(runtime)@.spawn_edges.contains_key(child) ==> final(runtime)@ == old(runtime)@,
        !old(runtime)@.spawn_edges.contains_key(child) ==> {
            &&& final(runtime)@.spawn_edges.contains_key(child)
            &&& final(runtime)@.spawn_edges[child].parent_thread_id == parent
            &&& final(runtime)@.spawn_edges[child].child_thread_id == child
            &&& final(runtime)@.spawn_edges[child].status == DirectionalThreadSpawnEdgeStatus::Open
        },
        forall|other: ThreadId| other != child && #[trigger] old(runtime)@.spawn_edges.contains_key(other) ==> final(runtime)@.spawn_edges[other]
            == old(runtime)@.spawn_edges[other],
{
}

/// The children of a thread are those with an edge from it, smallest identifier first; with a status, those
/// whose edge has it.
pub proof fn law_children_have_an_edge(
    runtime: &StateRuntime,
    parent: ThreadId,
    status: DirectionalThreadSpawnEdgeStatus,
    all: Vec<ThreadId>,
    some: Vec<ThreadId>,
    id: ThreadId,
)
    requires
        call_ensures(StateRuntime::list_thread_spawn_children, (runtime, parent), all),
        call_ensures(StateRuntime::list_thread_spawn_children_with_status, (runtime, parent, status), some),
    ensures
        all@.contains(id) <==> runtime@.spawn_edges.contains_key(id) && runtime@.spawn_edges[id].parent_thread_id == parent,
        some@.contains(id) <==> runtime@.spawn_edges.contains_key(id) && runtime@.spawn_edges[id].parent_thread_id == parent && runtime@.spawn_edges[id].status == status,
        forall|i: int, j: int| #![trigger all@[i], all@[j]] 0 <= i < j < all@.len() ==> all@[i].value < all@[j].value,
        forall|i: int, j: int| #![trigger some@[i], some@[j]] 0 <= i < j < some@.len() ==> some@[i].value < some@[j].value,
{
}

/// `listed` holds what is below `root` by the given edges and nothing else: the children of `root` and of all
/// that is listed, each behind the thread that spawned it. Siblings stand in the order of their identifiers.
pub open spec fn lists_all_below(edges: Map<ThreadId, ThreadSpawnEdge>, root: ThreadId, listed: Seq<ThreadId>) -> bool {
    &&& !listed.contains(root)
    &&& listed.no_duplicates()
    &&& forall|id: ThreadId| #[trigger]
        edges.contains_key(id) && id != root && (edges[id].parent_thread_id == root || listed.contains(edges[id].parent_thread_id)) ==> listed.contains(id)
    &&& forall|j: int|
        #![trigger listed[j]]
        0 <= j < listed.len() ==> {
            &&& edges.contains_key(listed[j])
            &&& edges[listed[j]].parent_thread_id == root || exists|i: int| 0 <= i < j && #[trigger] listed[i] == edges[listed[j]].parent_thread_id
        }
    &&& forall|i: int, j: int|
        #![trigger listed[i], listed[j]]
        0 <= i < j < listed.len() && edges[listed[i]].parent_thread_id == edges[listed[j]].parent_thread_id ==> listed[i].value < listed[j].value
}

proof fn lemma_lists_all_below(edges: Map<ThreadId, ThreadSpawnEdge>, root: ThreadId, listed: Seq<ThreadId>)
    requires
        is_descendant_list(edges, root, listed),
    ensures
        lists_all_below(edges, root, listed),
{
    law_descendants_are_listed_once(edges, root, listed);
    assert forall|id: ThreadId| #[trigger]
        edges.contains_key(id) && id != root && (edges[id].parent_thread_id == root || listed.contains(edges[id].parent_thread_id)) implies listed.contains(id) by {
        law_descendants_contain_children(edges, root, id);
    }
    assert forall|j: int| #![trigger listed[j]] 0 <= j < listed.len() implies {
        &&& edges.contains_key(listed[j])
        &&& edges[listed[j]].parent_thread_id == root || exists|i: int| 0 <= i < j && #[trigger] listed[i] == edges[listed[j]].parent_thread_id
    } by {
        let node = listed[j];
        assert(listed.contains(node));
        let depth = choose|depth: nat| depth > 0 && #[trigger] at_depth(edges, root, node, depth);
        let parent = edges[node].parent_thread_id;
        assert(at_depth(edges, root, parent, (depth - 1) as nat));
        if depth > 1 {
            assert(is_descendant(edges, root, parent));
            assert(listed.contains(parent));
            let i = choose|i: int| 0 <= i < listed.len() && listed[i] == parent;
            if i >= j {
                if i == j {
                    lemma_one_depth(edges, root, node, depth, (depth - 1) as nat);
                } else {
                    assert(is_nearer(edges, root, listed[j], listed[i]));
                    let (near, far) = choose|near: nat, far: nat| #[trigger]
                        at_depth(edges, root, node, near) && #[trigger] at_depth(edges, root, parent, far) && (near < far || near == far && node.value < parent.value);
                    lemma_one_depth(edges, root, node, near, depth);
                    lemma_one_depth(edges, root, parent, far, (depth - 1) as nat);
                }
            }
        }
    }
    assert forall|i: int, j: int|
        #![trigger listed[i], listed[j]]
        0 <= i < j < listed.len() && edges[listed[i]].parent_thread_id == edges[listed[j]].parent_thread_id implies listed[i].value < listed[j].value by {
        assert(listed.contains(listed[i]) && listed.contains(listed[j]));
        let a = choose|depth: nat| depth > 0 && #[trigger] at_depth(edges, root, listed[i], depth);
        let b = choose|depth: nat| depth > 0 && #[trigger] at_depth(edges, root, listed[j], depth);
        let parent = edges[listed[i]].parent_thread_id;
        lemma_one_depth(edges, root, parent, (a - 1) as nat, (b - 1) as nat);
        assert(is_nearer(edges, root, listed[i], listed[j]));
        let (near, far) = choose|near: nat, far: nat| #[trigger]
            at_depth(edges, root, listed[i], near) && #[trigger] at_depth(edges, root, listed[j], far) && (near < far || near == far && listed[i].value < listed[j].value);
        lemma_one_depth(edges, root, listed[i], near, a);
        lemma_one_depth(edges, root, listed[j], far, b);
    }
}

/// The descendants of a thread are all that is below it; with a status, all that is below it by edges of that
/// status alone.
pub proof fn law_descendants_are_all_below(
    runtime: &StateRuntime,
    root: ThreadId,
    status: DirectionalThreadSpawnEdgeStatus,
    all: Vec<ThreadId>,
    some: Vec<ThreadId>,
)
    requires
        call_ensures(StateRuntime::list_thread_spawn_descendants, (runtime, root), all),
        call_ensures(StateRuntime::list_thread_spawn_descendants_with_status, (runtime, root, status), some),
    ensures
        lists_all_below(runtime@.spawn_edges, root, all@),
        lists_all_below(runtime@.spawn_edges.restrict(runtime@.spawn_edges.dom().filter(|id: ThreadId| runtime@.spawn_edges[id].status == status)), root, some@),
{
    lemma_lists_all_below(runtime@.spawn_edges, root, all@);
    let narrowed = runtime@.spawn_edges.restrict(runtime@.spawn_edges.dom().filter(|id: ThreadId| runtime@.spawn_edges[id].status == status));
    assert(edges_with_status(runtime@.spawn_edges, Some(status)) =~= narrowed);
    lemma_lists_all_below(narrowed, root, some@);
}

/// A subtree is its root and, behind it, all that is below: nearest first or, in a shared database, smallest
/// identifier first.
pub proof fn law_subtree_is_all_below(runtime: &StateRuntime, root: ThreadId, ids: Vec<ThreadId>, below: Seq<ThreadId>, id: ThreadId)
    requires
        call_ensures(StateRuntime::thread_spawn_subtree, (runtime, root), ids),
        lists_all_below(runtime@.spawn_edges, root, below),
    ensures
        ids@.len() > 0 && ids@[0] == root,
        ids@.skip(1).contains(id) <==> below.contains(id),
        runtime@.backend is Sqlite ==> lists_all_below(runtime@.spawn_edges, root, ids@.skip(1)),
        runtime@.backend is Postgresql ==> forall|i: int, j: int| #![trigger ids@[i], ids@[j]] 0 < i < j < ids@.len() ==> ids@[i].value < ids@[j].value,
{
    lemma_below_are_descendants(runtime@.spawn_edges, root, below, id);
    let rest = ids@.skip(1);
    if runtime@.backend is Sqlite {
        lemma_lists_all_below(runtime@.spawn_edges, root, rest);
        assert(rest.contains(id) <==> is_descendant(runtime@.spawn_edges, root, id));
    } else {
        assert(rest.contains(id) <==> is_descendant(runtime@.spawn_edges, root, id));
        assert forall|i: int, j: int| #![trigger ids@[i], ids@[j]] 0 < i < j < ids@.len() implies ids@[i].value < ids@[j].value by {
            assert(ids@[i] == rest[i - 1] && ids@[j] == rest[j - 1]);
        }
    }
}

/// The child found by path has an edge from the parent and that agent path, and is the only one that has. None
/// is found only where none has it; several that have it are an error.
pub proof fn law_child_by_path_is_the_only_one(runtime: &StateRuntime, parent: ThreadId, path: &str, result: Result<Option<ThreadId>, ThreadRelationError>)
    requires
        call_ensures(StateRuntime::find_thread_spawn_child_by_path, (runtime, parent, path), result),
        runtime@.backend is Sqlite,
    ensures
        ({
            let has_it = |id: ThreadId|
                {
                    &&& runtime@.spawn_edges.contains_key(id)
                    &&& runtime@.spawn_edges[id].parent_thread_id == parent
                    &&& runtime@.threads.contains_key(id)
                    &&& runtime@.threads[id].metadata.agent_path is Some
                    &&& runtime@.threads[id].metadata.agent_path->0@ == path@
                };
            &&& result is Ok && result->Ok_0 is Some ==> has_it(result->Ok_0->0) && forall|id: ThreadId| #[trigger] has_it(id) ==> id == result->Ok_0->0
            &&& result is Ok && result->Ok_0 is None ==> forall|id: ThreadId| !#[trigger] has_it(id)
            &&& result is Err ==> exists|a: ThreadId, b: ThreadId| #[trigger] has_it(a) && #[trigger] has_it(b) && a != b
        }),
{
    let has_it = |id: ThreadId|
        {
            &&& runtime@.spawn_edges.contains_key(id)
            &&& runtime@.spawn_edges[id].parent_thread_id == parent
            &&& runtime@.threads.contains_key(id)
            &&& runtime@.threads[id].metadata.agent_path is Some
            &&& runtime@.threads[id].metadata.agent_path->0@ == path@
        };
    let children = choose|children: Seq<ThreadId>| #[trigger]
        is_child_list(runtime@.spawn_edges, parent, None, children) && is_one_with_path(runtime@.threads, children, path@, found_view(result));
    assert forall|id: ThreadId| #[trigger] has_it(id) implies children.contains(id) && has_path(runtime@.threads, id, path@) by {}
    if result is Ok {
        assert forall|id: ThreadId| #[trigger] has_it(id) implies result->Ok_0 == Some(id) by {
            let i = choose|i: int| 0 <= i < children.len() && children[i] == id;
            assert(has_path(runtime@.threads, children[i], path@));
        }
        if result->Ok_0 is Some {
            assert(children.contains(result->Ok_0->0));
            assert(has_it(result->Ok_0->0));
        }
    } else {
        let (a, b) = choose|a: ThreadId, b: ThreadId|
            #![trigger children.contains(a), children.contains(b)]
            children.contains(a) && children.contains(b) && a != b && has_path(runtime@.threads, a, path@) && has_path(runtime@.threads, b, path@);
        assert(has_it(a) && has_it(b));
    }
}

/// The descendant found by path is one of those below the root and has that agent path, and is the only one
/// that has.
pub proof fn law_descendant_by_path_is_the_only_one(
    runtime: &StateRuntime,
    root: ThreadId,
    path: &str,
    below: Vec<ThreadId>,
    result: Result<Option<ThreadId>, ThreadRelationError>,
)
    requires
        call_ensures(StateRuntime::find_thread_spawn_descendant_by_path, (runtime, root, path), result),
        call_ensures(StateRuntime::list_thread_spawn_descendants, (runtime, root), below),
        runtime@.backend is Sqlite,
    ensures
        ({
            let has_it = |id: ThreadId|
                {
                    &&& below@.contains(id)
                    &&& runtime@.threads.contains_key(id)
                    &&& runtime@.threads[id].metadata.agent_path is Some
                    &&& runtime@.threads[id].metadata.agent_path->0@ == path@
                };
            &&& result is Ok && result->Ok_0 is Some ==> has_it(result->Ok_0->0) && forall|id: ThreadId| #[trigger] has_it(id) ==> id == result->Ok_0->0
            &&& result is Ok && result->Ok_0 is None ==> forall|id: ThreadId| !#[trigger] has_it(id)
            &&& result is Err ==> exists|a: ThreadId, b: ThreadId| #[trigger] has_it(a) && #[trigger] has_it(b) && a != b
        }),
{
    let has_it = |id: ThreadId|
        {
            &&& below@.contains(id)
            &&& runtime@.threads.contains_key(id)
            &&& runtime@.threads[id].metadata.agent_path is Some
            &&& runtime@.threads[id].metadata.agent_path->0@ == path@
        };
    let listed = choose|listed: Seq<ThreadId>| #[trigger]
        is_descendant_list(runtime@.spawn_edges, root, listed) && is_one_with_path(runtime@.threads, listed, path@, found_view(result));
    assert forall|id: ThreadId| #[trigger] has_it(id) implies listed.contains(id) && has_path(runtime@.threads, id, path@) by {}
    if result is Ok {
        assert forall|id: ThreadId| #[trigger] has_it(id) implies result->Ok_0 == Some(id) by {
            let i = choose|i: int| 0 <= i < listed.len() && listed[i] == id;
            assert(has_path(runtime@.threads, listed[i], path@));
        }
        if result->Ok_0 is Some {
            assert(listed.contains(result->Ok_0->0));
            assert(below@.contains(result->Ok_0->0));
            assert(has_it(result->Ok_0->0));
        }
    } else {
        let (a, b) = choose|a: ThreadId, b: ThreadId|
            #![trigger listed.contains(a), listed.contains(b)]
            listed.contains(a) && listed.contains(b) && a != b && has_path(runtime@.threads, a, path@) && has_path(runtime@.threads, b, path@);
        assert(below@.contains(a) && below@.contains(b));
        assert(has_it(a) && has_it(b));
    }
}

/// Nothing of the given threads is left: neither row, edge, goal, job, output nor log. All that belongs to
/// others is as before.
pub open spec fn is_gone(before: StateRuntimeView, after: StateRuntimeView, ids: Seq<ThreadId>) -> bool {
    &&& forall|id: ThreadId| #[trigger] after.threads.contains_key(id) <==> before.threads.contains_key(id) && !ids.contains(id)
    &&& forall|id: ThreadId| #[trigger] after.threads.contains_key(id) ==> after.threads[id] == before.threads[id]
    &&& forall|id: ThreadId| #[trigger]
        after.spawn_edges.contains_key(id) <==> before.spawn_edges.contains_key(id) && !ids.contains(id) && !ids.contains(before.spawn_edges[id].parent_thread_id)
    &&& forall|id: ThreadId| #[trigger] after.spawn_edges.contains_key(id) ==> after.spawn_edges[id] == before.spawn_edges[id]
    &&& forall|id: ThreadId| #[trigger] after.goals.goals.contains_key(id) <==> before.goals.goals.contains_key(id) && !ids.contains(id)
    &&& forall|id: ThreadId| #[trigger] after.goals.goals.contains_key(id) ==> after.goals.goals[id] == before.goals.goals[id]
    &&& forall|id: ThreadId| #[trigger] after.memories.jobs.contains_key(id) <==> before.memories.jobs.contains_key(id) && !ids.contains(id)
    &&& forall|id: ThreadId| #[trigger] after.memories.outputs.contains_key(id) <==> before.memories.outputs.contains_key(id) && !ids.contains(id)
    &&& forall|row: StoredLog| #[trigger]
        after.logs.rows.contains(row) <==> before.logs.rows.contains(row) && (row.thread_id is None || forall|i: int|
            0 <= i < ids.len() ==> row.thread_id->0@ != uuid_text((#[trigger] ids[i]).value))
    &&& after.sections == before.sections
    &&& after.imports == before.imports
    &&& after.enrollments == before.enrollments
    &&& after.backfill == before.backfill
}

proof fn lemma_gone(before: StateRuntimeView, given: Seq<ThreadId>, sorted: &[ThreadId], now: i64, after: StateRuntimeView, count: u64)
    requires
        before.keyed(),
        is_sorted_ids(given, sorted@),
        deleting(before, sorted, now, after, Ok(count)),
    ensures
        is_gone(before, after, given),
        count == given.to_set().intersect(before.threads.dom()).len(),
{
    assert(forall|id: ThreadId| #[trigger] sorted@.contains(id) <==> given.contains(id));
    assert forall|id: ThreadId, row: StoredLog| true implies {
        &&& #[trigger] after.threads.contains_key(id) <==> before.threads.contains_key(id) && !given.contains(id)
        &&& after.threads.contains_key(id) ==> after.threads[id] == before.threads[id]
        &&& after.spawn_edges.contains_key(id) <==> before.spawn_edges.contains_key(id) && !given.contains(id) && !given.contains(before.spawn_edges[id].parent_thread_id)
        &&& after.spawn_edges.contains_key(id) ==> after.spawn_edges[id] == before.spawn_edges[id]
        &&& after.goals.goals.contains_key(id) <==> before.goals.goals.contains_key(id) && !given.contains(id)
        &&& after.goals.goals.contains_key(id) ==> after.goals.goals[id] == before.goals.goals[id]
        &&& after.memories.jobs.contains_key(id) <==> before.memories.jobs.contains_key(id) && !given.contains(id)
        &&& after.memories.outputs.contains_key(id) <==> before.memories.outputs.contains_key(id) && !given.contains(id)
        &&& #[trigger] after.logs.rows.contains(row) <==> before.logs.rows.contains(row) && !super::relation_laws::is_log_of(row, sorted@)
    } by {
        law_deleted_threads_leave_nothing(before, sorted, now, after, count, id, row);
    }
    let some_id: ThreadId = arbitrary();
    let some_row: StoredLog = arbitrary();
    law_deleted_threads_leave_nothing(before, sorted, now, after, count, some_id, some_row);
    assert forall|id: ThreadId| #[trigger] after.spawn_edges.contains_key(id) <==> before.spawn_edges.contains_key(id) && !given.contains(id) && !given.contains(
        before.spawn_edges[id].parent_thread_id,
    ) by {
        assert(after.threads.contains_key(id) || !after.threads.contains_key(id));
        law_deleted_threads_leave_nothing(before, sorted, now, after, count, id, some_row);
    }
    assert forall|id: ThreadId| #[trigger] after.spawn_edges.contains_key(id) implies after.spawn_edges[id] == before.spawn_edges[id] by {
        law_deleted_threads_leave_nothing(before, sorted, now, after, count, id, some_row);
    }
    assert forall|id: ThreadId| #[trigger] after.threads.contains_key(id) implies after.threads[id] == before.threads[id] by {
        law_deleted_threads_leave_nothing(before, sorted, now, after, count, id, some_row);
    }
    assert forall|id: ThreadId| #[trigger] after.goals.goals.contains_key(id) <==> before.goals.goals.contains_key(id) && !given.contains(id) by {
        law_deleted_threads_leave_nothing(before, sorted, now, after, count, id, some_row);
    }
    assert forall|id: ThreadId| #[trigger] after.goals.goals.contains_key(id) implies after.goals.goals[id] == before.goals.goals[id] by {
        law_deleted_threads_leave_nothing(before, sorted, now, after, count, id, some_row);
    }
    assert forall|id: ThreadId| #[trigger] after.memories.jobs.contains_key(id) <==> before.memories.jobs.contains_key(id) && !given.contains(id) by {
        law_deleted_threads_leave_nothing(before, sorted, now, after, count, id, some_row);
    }
    assert forall|id: ThreadId| #[trigger] after.memories.outputs.contains_key(id) <==> before.memories.outputs.contains_key(id) && !given.contains(id) by {
        law_deleted_threads_leave_nothing(before, sorted, now, after, count, id, some_row);
    }
    assert forall|row: StoredLog| #[trigger] after.logs.rows.contains(row) <==> before.logs.rows.contains(row) && (row.thread_id is None || forall|i: int|
        0 <= i < given.len() ==> row.thread_id->0@ != uuid_text((#[trigger] given[i]).value)) by {
        law_deleted_threads_leave_nothing(before, sorted, now, after, count, some_id, row);
        if super::relation_laws::is_log_of(row, sorted@) {
            let i = choose|i: int| 0 <= i < sorted@.len() && crate::thread_id::opt_view(row.thread_id) == Some(uuid_text((#[trigger] sorted@[i]).value));
            assert(sorted@.contains(sorted@[i]));
            let k = choose|k: int| 0 <= k < given.len() && given[k] == sorted@[i];
            assert(row.thread_id->0@ == uuid_text(given[k].value));
        } else if row.thread_id is Some {
            assert forall|i: int| 0 <= i < given.len() implies row.thread_id->0@ != uuid_text((#[trigger] given[i]).value) by {
                assert(given.contains(given[i]));
                assert(sorted@.contains(given[i]));
                let k = choose|k: int| 0 <= k < sorted@.len() && sorted@[k] == given[i];
                assert(crate::thread_id::opt_view(row.thread_id) != Some(uuid_text(sorted@[k].value)));
            }
        }
    }
    if given.len() == 0 {
        if sorted@.len() > 0 {
            assert(sorted@.contains(sorted@[0]));
        }
        assert(given.to_set().intersect(before.threads.dom()) =~= Set::empty());
    } else if sorted@.len() == 0 {
        assert(given.contains(given[0]));
    } else {
        assert(selected::<ThreadRow, ThreadsAmong>(before.threads, ThreadsAmong { ids: sorted }).dom() =~= given.to_set().intersect(before.threads.dom()));
    }
}

/// Deleted threads are gone with all that belongs to them. The answer is how many of those given there were.
/// A deletion that fails keeps all rows and edges, so that it can be repeated.
pub proof fn law_deleted_threads_are_gone(runtime: &mut StateRuntime, ids: &[ThreadId], now: i64, result: Result<u64, DeleteThreadsError>)
    requires
        call_ensures(StateRuntime::delete_threads_strict_at, (runtime, ids, now), result),
        old(runtime)@.keyed(),
    ensures
        result is Ok ==> is_gone(old(runtime)@, final(runtime)@, ids@) && result->Ok_0 == ids@.to_set().intersect(old(runtime)@.threads.dom()).len(),
        result is Err ==> final(runtime)@.threads == old(runtime)@.threads && final(runtime)@.spawn_edges == old(runtime)@.spawn_edges,
{
    let sorted = choose|sorted: &[ThreadId]| is_sorted_ids(ids@, sorted@) && #[trigger] deleting(old(runtime)@, sorted, now, final(runtime)@, failure_of(result));
    lemma_deletion(old(runtime)@, ids@, sorted, now, final(runtime)@, result);
}

proof fn lemma_deletion(before: StateRuntimeView, given: Seq<ThreadId>, sorted: &[ThreadId], now: i64, after: StateRuntimeView, result: Result<u64, DeleteThreadsError>)
    requires
        before.keyed(),
        is_sorted_ids(given, sorted@),
        deleting(before, sorted, now, after, failure_of(result)),
    ensures
        result is Ok ==> is_gone(before, after, given) && result->Ok_0 == given.to_set().intersect(before.threads.dom()).len(),
        result is Err ==> after.threads == before.threads && after.spawn_edges == before.spawn_edges,
{
    if result is Ok {
        lemma_gone(before, given, sorted, now, after, result->Ok_0);
    } else {
        super::relation_laws::lemma_failed_deletion(before, sorted, now, after, failure_of(result)->Err_0);
    }
}

/// At the time of the clock threads are deleted as at a given time; one thread as a list of one.
pub proof fn law_deleted_thread_is_gone(runtime: &mut StateRuntime, ids: &[ThreadId], result: Result<u64, DeleteThreadsError>)
    requires
        ({
            ||| call_ensures(StateRuntime::delete_threads_strict, (runtime, ids), result)
            ||| ids@.len() == 1 && call_ensures(StateRuntime::delete_thread, (runtime, ids@[0]), result)
        }),
        old(runtime)@.keyed(),
    ensures
        result is Ok ==> is_gone(old(runtime)@, final(runtime)@, ids@) && result->Ok_0 == ids@.to_set().intersect(old(runtime)@.threads.dom()).len(),
        result is Err ==> final(runtime)@.threads == old(runtime)@.threads && final(runtime)@.spawn_edges == old(runtime)@.spawn_edges,
{
    if call_ensures(StateRuntime::delete_threads_strict, (runtime, ids), result) {
        let (now, sorted) = choose|now: i64, sorted: &[ThreadId]|
            is_sorted_ids(ids@, sorted@) && #[trigger] deleting(old(runtime)@, sorted, now, final(runtime)@, failure_of(result));
        lemma_deletion(old(runtime)@, ids@, sorted, now, final(runtime)@, result);
    } else {
        assert(ids@ =~= seq![ids@[0]]);
        let (now, sorted) = choose|now: i64, sorted: &[ThreadId]|
            is_sorted_ids(seq![ids@[0]], sorted@) && #[trigger] deleting(old(runtime)@, sorted, now, final(runtime)@, failure_of(result));
        lemma_deletion(old(runtime)@, ids@, sorted, now, final(runtime)@, result);
    }
}

/// Deleting a subtree deletes the thread and all below it, and answers with them, the thread first.
pub proof fn law_deleted_subtree_is_gone(runtime: &mut StateRuntime, root: ThreadId, now: i64, ids: Vec<ThreadId>, below: Vec<ThreadId>, id: ThreadId)
    requires
        call_ensures(StateRuntime::delete_thread_spawn_subtree_strict_at, (runtime, root, now), Ok::<Vec<ThreadId>, DeleteThreadsError>(ids)),
        lists_all_below(old(runtime)@.spawn_edges, root, below@),
        old(runtime)@.keyed(),
    ensures
        ids@.len() > 0 && ids@[0] == root,
        below@.contains(id) ==> ids@.contains(id) && !final(runtime)@.threads.contains_key(id),
        !final(runtime)@.threads.contains_key(root),
        ids@.contains(id) ==> id == root || below@.contains(id),
        old(runtime)@.threads.contains_key(id) && id != root && !below@.contains(id) ==> final(runtime)@.threads.contains_key(id) && final(runtime)@.threads[id]
            == old(runtime)@.threads[id],
{
    let before = old(runtime)@;
    let after = final(runtime)@;
    let result = Ok::<Vec<ThreadId>, DeleteThreadsError>(ids);
    law_subtree_is_deleted_whole(before, root, now, after, result, id);
    law_subtree_is_deleted_whole(before, root, now, after, result, root);
    lemma_below_are_descendants(before.spawn_edges, root, below@, id);
    let (listed, sorted, count) = choose|listed: Seq<ThreadId>, sorted: &[ThreadId], count: Result<u64, super::deletion::DeleteFailure>| {
        &&& #[trigger] super::deletion::is_subtree_list(before, root, listed)
        &&& #[trigger] is_sorted_ids(listed, sorted@)
        &&& #[trigger] deleting(before, sorted, now, after, count)
        &&& count is Ok && ids@ == listed
    };
    let row: StoredLog = arbitrary();
    law_deleted_threads_leave_nothing(before, sorted, now, after, count->Ok_0, id, row);
}

pub(super) proof fn lemma_below_are_descendants(edges: Map<ThreadId, ThreadSpawnEdge>, root: ThreadId, below: Seq<ThreadId>, id: ThreadId)
    requires
        lists_all_below(edges, root, below),
    ensures
        below.contains(id) <==> is_descendant(edges, root, id),
{
    if below.contains(id) {
        let j = choose|j: int| 0 <= j < below.len() && below[j] == id;
        lemma_listed_is_below(edges, root, below, j);
    }
    if is_descendant(edges, root, id) {
        let depth = choose|depth: nat| depth > 0 && #[trigger] at_depth(edges, root, id, depth);
        lemma_below_is_listed(edges, root, below, id, depth);
    }
}

proof fn lemma_listed_is_below(edges: Map<ThreadId, ThreadSpawnEdge>, root: ThreadId, below: Seq<ThreadId>, j: int)
    requires
        lists_all_below(edges, root, below),
        0 <= j < below.len(),
    ensures
        is_descendant(edges, root, below[j]),
    decreases j,
{
    assert(below.contains(below[j]));
    let parent = edges[below[j]].parent_thread_id;
    if parent != root {
        let i = choose|i: int| 0 <= i < j && #[trigger] below[i] == parent;
        lemma_listed_is_below(edges, root, below, i);
    }
    law_descendants_contain_children(edges, root, below[j]);
}

proof fn lemma_below_is_listed(edges: Map<ThreadId, ThreadSpawnEdge>, root: ThreadId, below: Seq<ThreadId>, id: ThreadId, depth: nat)
    requires
        lists_all_below(edges, root, below),
        depth > 0,
        at_depth(edges, root, id, depth),
    ensures
        below.contains(id),
    decreases depth,
{
    let parent = edges[id].parent_thread_id;
    if depth > 1 {
        lemma_below_is_listed(edges, root, below, parent, (depth - 1) as nat);
    } else {
        assert(at_depth(edges, root, parent, 0));
    }
    assert(edges.contains_key(id));
}

/// Sorted identifiers are the given ones, each once, smallest first.
pub proof fn law_sorted_identifiers(given: &[ThreadId], sorted: Vec<ThreadId>, id: ThreadId)
    requires
        call_ensures(super::deletion::sorted_ids, (given,), sorted),
    ensures
        sorted@.contains(id) <==> given@.contains(id),
        forall|i: int, j: int| #![trigger sorted@[i], sorted@[j]] 0 <= i < j < sorted@.len() ==> sorted@[i].value < sorted@[j].value,
{
}

/// At the time of the clock a subtree is deleted as at a given time.
pub proof fn law_deleted_subtree_is_gone_now(runtime: &mut StateRuntime, root: ThreadId, ids: Vec<ThreadId>, below: Seq<ThreadId>, id: ThreadId)
    requires
        call_ensures(StateRuntime::delete_thread_spawn_subtree_strict, (runtime, root), Ok::<Vec<ThreadId>, DeleteThreadsError>(ids)),
        lists_all_below(old(runtime)@.spawn_edges, root, below),
        old(runtime)@.keyed(),
    ensures
        ids@.contains(id) <==> id == root || below.contains(id),
        final(runtime)@.threads.contains_key(id) <==> old(runtime)@.threads.contains_key(id) && id != root && !below.contains(id),
{
    let result = Ok::<Vec<ThreadId>, DeleteThreadsError>(ids);
    let now = choose|now: i64| #[trigger] super::deletion::deletes_subtree(old(runtime)@, root, now, final(runtime)@, result);
    law_subtree_is_deleted_whole(old(runtime)@, root, now, final(runtime)@, result, id);
    lemma_below_are_descendants(old(runtime)@.spawn_edges, root, below, id);
}

} // verus!
