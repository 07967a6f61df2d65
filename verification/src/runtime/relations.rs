//! Which thread spawned which.
//!
//! Every spawned thread has one edge, from the thread that spawned it. The descendants of a thread
//! are found level by level.

use super::StateRuntime;
use super::StateRuntimeView;
use crate::backend::RuntimeStateBackend;
use crate::table::is_full_listing;
use crate::table::row_selected;
use crate::table::selected;
use crate::table::views;
use crate::table::Condition;
use crate::table::Ranking;
use crate::table::Row;
use crate::text::is_text;
use crate::thread_id::opt_view;
use crate::thread_id::ThreadId;
use crate::threads::DirectionalThreadSpawnEdgeStatus;
use crate::threads::ThreadRow;
use crate::threads::ThreadSpawnEdge;
use vstd::prelude::*;
use vstd::string::*;

verus! {

/// Why a relation could not be stored or found.
#[derive(Debug, PartialEq, Eq)]
pub enum ThreadRelationError {
    /// One of the threads does not exist.
    NoCanonicalThread,
    /// Several agents have the path.
    AmbiguousPath(String),
    /// The operation is one of the local database.
    LocalOnly,
}

pub enum ThreadRelationErrorView {
    NoCanonicalThread,
    AmbiguousPath(Seq<char>),
    LocalOnly,
}

impl View for ThreadRelationError {
    type V = ThreadRelationErrorView;

    open spec fn view(&self) -> ThreadRelationErrorView {
        match self {
            ThreadRelationError::NoCanonicalThread => ThreadRelationErrorView::NoCanonicalThread,
            ThreadRelationError::AmbiguousPath(path) => ThreadRelationErrorView::AmbiguousPath(path@),
            ThreadRelationError::LocalOnly => ThreadRelationErrorView::LocalOnly,
        }
    }
}

impl ThreadRelationErrorView {
    pub open spec fn text(self) -> Seq<char> {
        match self {
            ThreadRelationErrorView::NoCanonicalThread => "Runtime State could not complete the `upsert thread spawn edge` operation; verify canonical thread state, then retry"@,
            ThreadRelationErrorView::AmbiguousPath(path) => "multiple agents found for canonical path `"@ + path + "`"@,
            ThreadRelationErrorView::LocalOnly => "the operation needs the local SQLite runtime state"@,
        }
    }
}

impl ThreadRelationError {
    pub fn message(&self) -> (text: String)
        ensures
            text@ == self@.text(),
    {
        match self {
            ThreadRelationError::NoCanonicalThread => "Runtime State could not complete the `upsert thread spawn edge` operation; verify canonical thread state, then retry".to_owned(),
            ThreadRelationError::AmbiguousPath(path) => {
                let mut text = "multiple agents found for canonical path `".to_owned();
                text.append(path.as_str());
                text.append("`");
                text
            },
            ThreadRelationError::LocalOnly => "the operation needs the local SQLite runtime state".to_owned(),
        }
    }
}

/// The edge has the wanted status, if one is wanted.
pub open spec fn has_status(edge: ThreadSpawnEdge, status: Option<DirectionalThreadSpawnEdgeStatus>) -> bool {
    status is Some ==> edge.status == status->0
}

fn is_of_status(edge: &ThreadSpawnEdge, status: Option<DirectionalThreadSpawnEdgeStatus>) -> (r: bool)
    ensures
        r == has_status(*edge, status),
{
    match status {
        Some(status) => edge.status == status,
        None => true,
    }
}

/// The edges with the wanted status.
pub open spec fn edges_with_status(
    edges: Map<ThreadId, ThreadSpawnEdge>,
    status: Option<DirectionalThreadSpawnEdgeStatus>,
) -> Map<ThreadId, ThreadSpawnEdge> {
    Map::new(|id: ThreadId| edges.contains_key(id) && has_status(edges[id], status), |id: ThreadId| edges[id])
}

/// `node` is `depth` edges below `root`, and the way there does not lead through `root` again.
pub open spec fn at_depth(edges: Map<ThreadId, ThreadSpawnEdge>, root: ThreadId, node: ThreadId, depth: nat) -> bool
    decreases depth,
{
    if depth == 0 {
        node == root
    } else {
        &&& node != root
        &&& edges.contains_key(node)
        &&& at_depth(edges, root, edges[node].parent_thread_id, (depth - 1) as nat)
    }
}

/// `node` is below `root`.
pub open spec fn is_descendant(edges: Map<ThreadId, ThreadSpawnEdge>, root: ThreadId, node: ThreadId) -> bool {
    exists|depth: nat| depth > 0 && #[trigger] at_depth(edges, root, node, depth)
}

/// `a` is nearer to `root` than `b`, or as near and has the smaller identifier.
pub open spec fn is_nearer(edges: Map<ThreadId, ThreadSpawnEdge>, root: ThreadId, a: ThreadId, b: ThreadId) -> bool {
    exists|near: nat, far: nat| #[trigger]
        at_depth(edges, root, a, near) && #[trigger] at_depth(edges, root, b, far) && (near < far || near == far && a.value < b.value)
}

/// `listed` holds the descendants of `root`, nearest first, each once.
pub open spec fn is_descendant_list(edges: Map<ThreadId, ThreadSpawnEdge>, root: ThreadId, listed: Seq<ThreadId>) -> bool {
    &&& forall|id: ThreadId| #[trigger] listed.contains(id) <==> is_descendant(edges, root, id)
    &&& forall|i: int, j: int| #![trigger listed[i], listed[j]] 0 <= i < j < listed.len() ==> is_nearer(edges, root, listed[i], listed[j])
}

/// A thread has one distance from a thread above it.
pub proof fn lemma_one_depth(edges: Map<ThreadId, ThreadSpawnEdge>, root: ThreadId, node: ThreadId, a: nat, b: nat)
    requires
        at_depth(edges, root, node, a),
        at_depth(edges, root, node, b),
    ensures
        a == b,
    decreases a,
{
    if a > 0 && b > 0 {
        lemma_one_depth(edges, root, edges[node].parent_thread_id, (a - 1) as nat, (b - 1) as nat);
    }
}

/// Above a thread there is one at every smaller distance.
proof fn lemma_nearer_thread(edges: Map<ThreadId, ThreadSpawnEdge>, root: ThreadId, node: ThreadId, depth: nat, wanted: nat) -> (above: ThreadId)
    requires
        at_depth(edges, root, node, depth),
        wanted <= depth,
    ensures
        at_depth(edges, root, above, wanted),
    decreases depth,
{
    if wanted == depth {
        node
    } else {
        lemma_nearer_thread(edges, root, edges[node].parent_thread_id, (depth - 1) as nat, wanted)
    }
}

/// The edges from one of the given threads to a thread other than `root`.
pub struct EdgesBelow<'a> {
    pub parents: &'a Vec<ThreadId>,
    pub root: ThreadId,
    pub status: Option<DirectionalThreadSpawnEdgeStatus>,
}

fn is_among(ids: &Vec<ThreadId>, id: ThreadId) -> (found: bool)
    ensures
        found == ids@.contains(id),
{
    let mut i: usize = 0;
    while i < ids.len()
        invariant
            i <= ids@.len(),
            forall|j: int| 0 <= j < i ==> #[trigger] ids@[j] != id,
        decreases ids@.len() - i,
    {
        if ids[i] == id {
            assert(ids@[i as int] == id);
            return true;
        }
        i += 1;
    }
    false
}

impl<'a> Condition<ThreadSpawnEdge> for EdgesBelow<'a> {
    open spec fn holds(&self, row: ThreadSpawnEdge) -> bool {
        &&& self.parents@.contains(row.parent_thread_id)
        &&& row.child_thread_id != self.root
        &&& has_status(row, self.status)
    }

    fn test(&self, row: &ThreadSpawnEdge) -> (held: bool) {
        row.child_thread_id != self.root && is_of_status(row, self.status) && is_among(self.parents, row.parent_thread_id)
    }
}

/// The edges from a thread.
pub struct EdgesFrom {
    pub parent: ThreadId,
    pub status: Option<DirectionalThreadSpawnEdgeStatus>,
}

impl Condition<ThreadSpawnEdge> for EdgesFrom {
    open spec fn holds(&self, row: ThreadSpawnEdge) -> bool {
        row.parent_thread_id == self.parent && has_status(row, self.status)
    }

    fn test(&self, row: &ThreadSpawnEdge) -> (held: bool) {
        row.parent_thread_id == self.parent && is_of_status(row, self.status)
    }
}

/// Every edge.
pub struct AllEdges {}

impl Condition<ThreadSpawnEdge> for AllEdges {
    open spec fn holds(&self, row: ThreadSpawnEdge) -> bool {
        true
    }

    fn test(&self, row: &ThreadSpawnEdge) -> (held: bool) {
        true
    }
}

/// By the spawned thread.
pub struct ByChild {}

impl Ranking<ThreadSpawnEdge> for ByChild {
    open spec fn before(&self, a: ThreadSpawnEdge, b: ThreadSpawnEdge) -> bool {
        a.child_thread_id.value < b.child_thread_id.value
    }

    fn is_before(&self, a: &ThreadSpawnEdge, b: &ThreadSpawnEdge) -> (r: bool) {
        a.child_thread_id.value < b.child_thread_id.value
    }

    proof fn asymmetric(&self, a: ThreadSpawnEdge, b: ThreadSpawnEdge) {
    }

    proof fn negatively_transitive(&self, a: ThreadSpawnEdge, b: ThreadSpawnEdge, c: ThreadSpawnEdge) {
    }
}

/// Smallest identifier first, each once.
pub open spec fn ids_ascend(ids: Seq<ThreadId>) -> bool {
    forall|i: int, j: int| #![trigger ids[i], ids[j]] 0 <= i < j < ids.len() ==> ids[i].value < ids[j].value
}

/// `listed` holds the threads spawned by `parent`, smallest identifier first.
pub open spec fn is_child_list(
    edges: Map<ThreadId, ThreadSpawnEdge>,
    parent: ThreadId,
    status: Option<DirectionalThreadSpawnEdgeStatus>,
    listed: Seq<ThreadId>,
) -> bool {
    &&& forall|id: ThreadId| #[trigger] listed.contains(id) <==> edges.contains_key(id) && edges[id].parent_thread_id == parent && has_status(edges[id], status)
    &&& ids_ascend(listed)
}

/// The threads at the end of the given edges.
fn children_of(rows: &Vec<ThreadSpawnEdge>) -> (ids: Vec<ThreadId>)
    requires
        forall|i: int, j: int| #![trigger rows@[i], rows@[j]] 0 <= i < j < rows@.len() ==> rows@[i].child_thread_id.value < rows@[j].child_thread_id.value,
    ensures
        ids@.len() == rows@.len(),
        forall|i: int| 0 <= i < ids@.len() ==> #[trigger] ids@[i] == rows@[i].child_thread_id,
        ids_ascend(ids@),
{
    let mut ids: Vec<ThreadId> = Vec::new();
    let mut i: usize = 0;
    while i < rows.len()
        invariant
            i <= rows@.len(),
            ids@.len() == i,
            forall|k: int| 0 <= k < i ==> #[trigger] ids@[k] == rows@[k].child_thread_id,
        decreases rows@.len() - i,
    {
        ids.push(rows[i].child_thread_id);
        i += 1;
    }
    ids
}

/// A full listing by child has ascending children.
proof fn lemma_children_ascend<C: Condition<ThreadSpawnEdge>>(edges: Map<ThreadId, ThreadSpawnEdge>, condition: C, listed: Seq<ThreadSpawnEdge>)
    requires
        is_full_listing::<ThreadSpawnEdge, C, ByChild>(edges, condition, ByChild {  }, listed),
    ensures
        forall|i: int, j: int| #![trigger listed[i], listed[j]] 0 <= i < j < listed.len() ==> listed[i].child_thread_id.value < listed[j].child_thread_id.value,
{
    assert forall|i: int, j: int| #![trigger listed[i], listed[j]] 0 <= i < j < listed.len() implies listed[i].child_thread_id.value
        < listed[j].child_thread_id.value by {
        assert(!(ByChild {  }).before(listed[j], listed[i]));
        assert(ThreadSpawnEdge::key_of(listed[i]) != ThreadSpawnEdge::key_of(listed[j]));
    }
}

/// The `i`-th thread is nearer than the `j`-th, or as near and has the smaller identifier.
pub open spec fn goes_before(found: Seq<ThreadId>, depths: Seq<nat>, i: int, j: int) -> bool {
    depths[i] < depths[j] || (depths[i] == depths[j] && found[i].value < found[j].value)
}

/// What is known of the descendants found so far, `depths` being their distances.
pub open spec fn found_down_to(
    edges: Map<ThreadId, ThreadSpawnEdge>,
    root: ThreadId,
    found: Seq<ThreadId>,
    depths: Seq<nat>,
    depth: nat,
) -> bool {
    &&& depths.len() == found.len()
    &&& forall|i: int| 0 <= i < found.len() ==> at_depth(edges, root, #[trigger] found[i], depths[i]) && 0 < depths[i] <= depth
    &&& forall|i: int, j: int| 0 <= i < j < found.len() ==> #[trigger] goes_before(found, depths, i, j)
    &&& forall|id: ThreadId, k: nat| #[trigger] at_depth(edges, root, id, k) && 0 < k <= depth ==> found.contains(id)
}

proof fn lemma_found_fits(edges: Map<ThreadId, ThreadSpawnEdge>, root: ThreadId, found: Seq<ThreadId>, depths: Seq<nat>, depth: nat)
    requires
        found_down_to(edges, root, found, depths, depth),
        edges.dom().finite(),
    ensures
        found.len() <= edges.dom().len(),
{
    assert(found.no_duplicates()) by {
        assert forall|i: int, j: int| 0 <= i < j < found.len() implies found[i] != found[j] by {
            assert(goes_before(found, depths, i, j));
            assert(at_depth(edges, root, found[i], depths[i]));
            assert(at_depth(edges, root, found[j], depths[j]));
            if found[i] == found[j] {
                lemma_one_depth(edges, root, found[i], depths[i], depths[j]);
            }
        }
    }
    found.unique_seq_to_set();
    assert(found.to_set().subset_of(edges.dom())) by {
        assert forall|id: ThreadId| #[trigger] found.to_set().contains(id) implies edges.dom().contains(id) by {
            let i = choose|i: int| 0 <= i < found.len() && found[i] == id;
            assert(at_depth(edges, root, found[i], depths[i]));
        }
    }
    vstd::set_lib::lemma_len_subset(found.to_set(), edges.dom());
}

proof fn lemma_found_all(edges: Map<ThreadId, ThreadSpawnEdge>, root: ThreadId, found: Seq<ThreadId>, depths: Seq<nat>, depth: nat)
    requires
        found_down_to(edges, root, found, depths, depth),
        forall|id: ThreadId| !#[trigger] at_depth(edges, root, id, depth + 1),
    ensures
        is_descendant_list(edges, root, found),
{
    assert forall|id: ThreadId| #[trigger] found.contains(id) <==> is_descendant(edges, root, id) by {
        if found.contains(id) {
            let i = choose|i: int| 0 <= i < found.len() && found[i] == id;
            assert(at_depth(edges, root, found[i], depths[i]));
        }
        if is_descendant(edges, root, id) {
            let k = choose|k: nat| k > 0 && #[trigger] at_depth(edges, root, id, k);
            if k > depth {
                let above = lemma_nearer_thread(edges, root, id, k, depth + 1);
            }
        }
    }
    assert forall|i: int, j: int| #![trigger found[i], found[j]] 0 <= i < j < found.len() implies is_nearer(edges, root, found[i], found[j]) by {
        assert(goes_before(found, depths, i, j));
        assert(at_depth(edges, root, found[i], depths[i]));
        assert(at_depth(edges, root, found[j], depths[j]));
    }
}

/// One level further down.
proof fn lemma_next_level(
    edges: Map<ThreadId, ThreadSpawnEdge>,
    root: ThreadId,
    found: Seq<ThreadId>,
    depths: Seq<nat>,
    depth: nat,
    next: Seq<ThreadId>,
)
    requires
        found_down_to(edges, root, found, depths, depth),
        ids_ascend(next),
        forall|id: ThreadId| #[trigger] next.contains(id) <==> at_depth(edges, root, id, depth + 1),
    ensures
        found_down_to(edges, root, found + next, depths + Seq::new(next.len(), |i: int| (depth + 1) as nat), depth + 1),
{
    let all = found + next;
    let measured = depths + Seq::new(next.len(), |i: int| (depth + 1) as nat);
    assert forall|i: int| 0 <= i < all.len() implies at_depth(edges, root, #[trigger] all[i], measured[i]) && 0 < measured[i] <= depth + 1 by {
        if i < found.len() {
            assert(all[i] == found[i]);
            assert(at_depth(edges, root, found[i], depths[i]));
        } else {
            assert(all[i] == next[i - found.len()]);
            assert(next.contains(all[i]));
        }
    }
    assert forall|i: int, j: int| 0 <= i < j < all.len() implies #[trigger] goes_before(all, measured, i, j) by {
        if j < found.len() {
            assert(all[i] == found[i] && all[j] == found[j]);
            assert(goes_before(found, depths, i, j));
        } else if i < found.len() {
            assert(at_depth(edges, root, found[i], depths[i]));
        } else {
            assert(all[i] == next[i - found.len()] && all[j] == next[j - found.len()]);
        }
    }
    assert forall|id: ThreadId, k: nat| #[trigger] at_depth(edges, root, id, k) && 0 < k <= depth + 1 implies all.contains(id) by {
        if k <= depth {
            assert(found.contains(id));
            let i = choose|i: int| 0 <= i < found.len() && found[i] == id;
            assert(all[i] == id);
        } else {
            assert(next.contains(id));
            let i = choose|i: int| 0 <= i < next.len() && next[i] == id;
            assert(all[found.len() + i] == id);
        }
    }
}

impl StateRuntime {
    /// Stores the edge of a spawned thread, in place of the one it had. A shared database knows
    /// which threads exist, and refuses an edge between others.
    pub fn upsert_thread_spawn_edge(
        &mut self,
        parent_thread_id: ThreadId,
        child_thread_id: ThreadId,
        status: DirectionalThreadSpawnEdgeStatus,
    ) -> (result: Result<(), ThreadRelationError>)
        ensures
            match result {
                Ok(_) => {
                    &&& old(self)@.backend is Postgresql ==> old(self)@.threads.contains_key(parent_thread_id) && old(self)@.threads.contains_key(child_thread_id)
                    &&& final(self)@ == with_edge(old(self)@, ThreadSpawnEdge { parent_thread_id, child_thread_id, status })
                },
                Err(error) => {
                    &&& old(self)@.backend is Postgresql
                    &&& !old(self)@.threads.contains_key(parent_thread_id) || !old(self)@.threads.contains_key(child_thread_id)
                    &&& error@ == ThreadRelationErrorView::NoCanonicalThread
                    &&& final(self)@ == old(self)@
                },
            },
    {
        if matches!(self.backend, RuntimeStateBackend::Postgresql) {
            if !self.threads.contains(&parent_thread_id) || !self.threads.contains(&child_thread_id) {
                return Err(ThreadRelationError::NoCanonicalThread);
            }
        }
        self.spawn_edges.put(ThreadSpawnEdge { parent_thread_id, child_thread_id, status });
        Ok(())
    }

    /// Sets the status of the edge of a spawned thread.
    pub fn set_thread_spawn_edge_status(&mut self, child_thread_id: ThreadId, status: DirectionalThreadSpawnEdgeStatus)
        ensures
            final(self)@ == if old(self)@.spawn_edges.contains_key(child_thread_id) {
                with_edge(old(self)@, ThreadSpawnEdge { status, ..old(self)@.spawn_edges[child_thread_id] })
            } else {
                old(self)@
            },
    {
        let edge = match self.spawn_edges.get(&child_thread_id) {
            Some(edge) => ThreadSpawnEdge { parent_thread_id: edge.parent_thread_id, child_thread_id: edge.child_thread_id, status },
            None => return,
        };
        self.spawn_edges.put(edge);
    }

    /// Stores the edge of a spawned thread unless it has one.
    pub fn insert_thread_spawn_edge_if_absent(&mut self, parent_thread_id: ThreadId, child_thread_id: ThreadId)
        ensures
            final(self)@ == with_edge_if_absent(old(self)@, parent_thread_id, child_thread_id),
    {
        if !self.spawn_edges.contains(&child_thread_id) {
            self.spawn_edges.put(
                ThreadSpawnEdge { parent_thread_id, child_thread_id, status: DirectionalThreadSpawnEdgeStatus::Open },
            );
        }
    }

    /// The threads spawned by a thread whose edges have the given status.
    pub fn list_thread_spawn_children_with_status(
        &self,
        parent_thread_id: ThreadId,
        status: DirectionalThreadSpawnEdgeStatus,
    ) -> (children: Vec<ThreadId>)
        ensures
            is_child_list(self@.spawn_edges, parent_thread_id, Some(status), children@),
    {
        self.list_thread_spawn_children_matching(parent_thread_id, Some(status))
    }

    /// The threads spawned by a thread.
    pub fn list_thread_spawn_children(&self, parent_thread_id: ThreadId) -> (children: Vec<ThreadId>)
        ensures
            is_child_list(self@.spawn_edges, parent_thread_id, None, children@),
    {
        self.list_thread_spawn_children_matching(parent_thread_id, None)
    }

    fn list_thread_spawn_children_matching(
        &self,
        parent_thread_id: ThreadId,
        status: Option<DirectionalThreadSpawnEdgeStatus>,
    ) -> (children: Vec<ThreadId>)
        ensures
            is_child_list(self@.spawn_edges, parent_thread_id, status, children@),
    {
        let condition = EdgesFrom { parent: parent_thread_id, status };
        let rows = self.spawn_edges.select_all(&condition, &ByChild {  });
        let ghost listed = views(rows@);
        assert(listed =~= rows@);
        proof {
            crate::table::lemma_keyed(self.spawn_edges);
            lemma_children_ascend(self@.spawn_edges, condition, listed);
        }
        let children = children_of(&rows);
        assert forall|id: ThreadId| #[trigger] children@.contains(id) <==> self@.spawn_edges.contains_key(id) && self@.spawn_edges[id].parent_thread_id
            == parent_thread_id && has_status(self@.spawn_edges[id], status) by {
            if children@.contains(id) {
                let i = choose|i: int| 0 <= i < children@.len() && children@[i] == id;
                assert(row_selected::<ThreadSpawnEdge, EdgesFrom>(self@.spawn_edges, condition, listed[i]));
            }
            if self@.spawn_edges.contains_key(id) && self@.spawn_edges[id].parent_thread_id == parent_thread_id && has_status(self@.spawn_edges[id], status) {
                assert(row_selected::<ThreadSpawnEdge, EdgesFrom>(self@.spawn_edges, condition, self@.spawn_edges[id]));
                assert(listed.contains(self@.spawn_edges[id]));
                let i = choose|i: int| 0 <= i < listed.len() && listed[i] == self@.spawn_edges[id];
                assert(children@[i] == id);
            }
        }
        children
    }

    /// The threads below a thread by edges of the given status, nearest first.
    pub fn list_thread_spawn_descendants_with_status(
        &self,
        root_thread_id: ThreadId,
        status: DirectionalThreadSpawnEdgeStatus,
    ) -> (descendants: Vec<ThreadId>)
        ensures
            is_descendant_list(edges_with_status(self@.spawn_edges, Some(status)), root_thread_id, descendants@),
    {
        self.list_thread_spawn_descendants_matching(root_thread_id, Some(status))
    }

    /// The threads below a thread, nearest first.
    pub fn list_thread_spawn_descendants(&self, root_thread_id: ThreadId) -> (descendants: Vec<ThreadId>)
        ensures
            is_descendant_list(self@.spawn_edges, root_thread_id, descendants@),
    {
        let descendants = self.list_thread_spawn_descendants_matching(root_thread_id, None);
        assert(edges_with_status(self@.spawn_edges, None) =~= self@.spawn_edges);
        descendants
    }

    fn list_thread_spawn_descendants_matching(
        &self,
        root_thread_id: ThreadId,
        status: Option<DirectionalThreadSpawnEdgeStatus>,
    ) -> (descendants: Vec<ThreadId>)
        ensures
            is_descendant_list(edges_with_status(self@.spawn_edges, status), root_thread_id, descendants@),
    {
        let ghost edges = edges_with_status(self@.spawn_edges, status);
        let total: usize = self.spawn_edges.count(&AllEdges {  });
        proof {
            let all = selected::<ThreadSpawnEdge, AllEdges>(self@.spawn_edges, AllEdges {  }).dom();
            assert(all =~= self@.spawn_edges.dom());
            assert(edges.dom().subset_of(all));
            vstd::set_lib::lemma_len_subset(edges.dom(), all);
            crate::table::lemma_keyed(self.spawn_edges);
        }
        let mut found: Vec<ThreadId> = Vec::new();
        let mut level: Vec<ThreadId> = Vec::new();
        level.push(root_thread_id);
        let ghost mut depths: Seq<nat> = Seq::empty();
        let ghost mut depth: nat = 0;
        proof {
            assert forall|id: ThreadId| #[trigger] level@.contains(id) <==> at_depth(edges, root_thread_id, id, 0) by {
                if id == root_thread_id {
                    assert(level@[0] == id);
                }
            }
        }
        loop
            invariant
                edges == edges_with_status(self@.spawn_edges, status),
                edges.dom().finite(),
                edges.dom().len() <= total,
                self@.spawn_edges == self.spawn_edges@,
                forall|id: ThreadId| #[trigger] self@.spawn_edges.contains_key(id) ==> self@.spawn_edges[id].child_thread_id == id,
                found_down_to(edges, root_thread_id, found@, depths, depth),
                forall|id: ThreadId| #[trigger] level@.contains(id) <==> at_depth(edges, root_thread_id, id, depth),
            decreases total - found@.len(),
        {
            let condition = EdgesBelow { parents: &level, root: root_thread_id, status };
            let rows = self.spawn_edges.select_all(&condition, &ByChild {  });
            let ghost listed = views(rows@);
            assert(listed =~= rows@);
            proof {
                lemma_children_ascend(self@.spawn_edges, condition, listed);
            }
            let mut next = children_of(&rows);
            proof {
                assert forall|id: ThreadId| #[trigger] next@.contains(id) <==> at_depth(edges, root_thread_id, id, depth + 1) by {
                    if next@.contains(id) {
                        let i = choose|i: int| 0 <= i < next@.len() && next@[i] == id;
                        assert(row_selected::<ThreadSpawnEdge, EdgesBelow>(self@.spawn_edges, condition, listed[i]));
                        assert(level@.contains(edges[id].parent_thread_id));
                    }
                    if at_depth(edges, root_thread_id, id, depth + 1) {
                        let edge = self@.spawn_edges[id];
                        assert(at_depth(edges, root_thread_id, edge.parent_thread_id, depth));
                        assert(level@.contains(edge.parent_thread_id));
                        assert(row_selected::<ThreadSpawnEdge, EdgesBelow>(self@.spawn_edges, condition, edge));
                        assert(listed.contains(edge));
                        let i = choose|i: int| 0 <= i < listed.len() && listed[i] == edge;
                        assert(next@[i] == id);
                    }
                }
            }
            if next.len() == 0 {
                proof {
                    assert forall|id: ThreadId| !#[trigger] at_depth(edges, root_thread_id, id, depth + 1) by {
                        if at_depth(edges, root_thread_id, id, depth + 1) {
                            assert(next@.contains(id));
                        }
                    }
                    lemma_found_all(edges, root_thread_id, found@, depths, depth);
                }
                return found;
            }
            proof {
                lemma_next_level(edges, root_thread_id, found@, depths, depth, next@);
                depths = depths + Seq::new(next@.len(), |i: int| (depth + 1) as nat);
                depth = depth + 1;
                lemma_found_fits(edges, root_thread_id, found@ + next@, depths, depth);
            }
            let ghost before = found@;
            level = next.clone();
            assert(level@ =~= next@);
            found.append(&mut next);
            assert(found@ =~= before + level@);
        }
    }

    /// The thread spawned by a thread that has the given agent path.
    pub fn find_thread_spawn_child_by_path(&self, parent_thread_id: ThreadId, agent_path: &str) -> (result: Result<Option<ThreadId>, ThreadRelationError>)
        ensures
            if self@.backend is Sqlite {
                exists|children: Seq<ThreadId>| #[trigger]
                    is_child_list(self@.spawn_edges, parent_thread_id, None, children) && is_one_with_path(
                        self@.threads,
                        children,
                        agent_path@,
                        found_view(result),
                    )
            } else {
                found_view(result) == Err::<Option<ThreadId>, ThreadRelationErrorView>(ThreadRelationErrorView::LocalOnly)
            },
    {
        if !self.is_local() {
            return Err(ThreadRelationError::LocalOnly);
        }
        let children = self.list_thread_spawn_children(parent_thread_id);
        self.one_thread_with_path(&children, agent_path)
    }

    /// The thread below a thread that has the given agent path.
    pub fn find_thread_spawn_descendant_by_path(&self, root_thread_id: ThreadId, agent_path: &str) -> (result: Result<Option<ThreadId>, ThreadRelationError>)
        ensures
            if self@.backend is Sqlite {
                exists|descendants: Seq<ThreadId>| #[trigger]
                    is_descendant_list(self@.spawn_edges, root_thread_id, descendants) && is_one_with_path(
                        self@.threads,
                        descendants,
                        agent_path@,
                        found_view(result),
                    )
            } else {
                found_view(result) == Err::<Option<ThreadId>, ThreadRelationErrorView>(ThreadRelationErrorView::LocalOnly)
            },
    {
        if !self.is_local() {
            return Err(ThreadRelationError::LocalOnly);
        }
        let descendants = self.list_thread_spawn_descendants(root_thread_id);
        self.one_thread_with_path(&descendants, agent_path)
    }

    fn one_thread_with_path(&self, ids: &Vec<ThreadId>, agent_path: &str) -> (result: Result<Option<ThreadId>, ThreadRelationError>)
        ensures
            is_one_with_path(self@.threads, ids@, agent_path@, found_view(result)),
    {
        let mut found: Option<ThreadId> = None;
        let mut i: usize = 0;
        while i < ids.len()
            invariant
                i <= ids@.len(),
                self@.threads == self.threads@,
                match found {
                    Some(id) => {
                        &&& ids@.contains(id)
                        &&& has_path(self@.threads, id, agent_path@)
                        &&& forall|j: int| 0 <= j < i && has_path(self@.threads, #[trigger] ids@[j], agent_path@) ==> ids@[j] == id
                    },
                    None => forall|j: int| 0 <= j < i ==> !has_path(self@.threads, #[trigger] ids@[j], agent_path@),
                },
            decreases ids@.len() - i,
        {
            let id = ids[i];
            let matches = match self.threads.get(&id) {
                Some(row) => is_text(&row.metadata.agent_path, agent_path),
                None => false,
            };
            if matches {
                assert(ids@.contains(id));
                assert(has_path(self@.threads, id, agent_path@));
                match found {
                    Some(other) => {
                        if other != id {
                            return Err(ThreadRelationError::AmbiguousPath(agent_path.to_owned()));
                        }
                    },
                    None => {
                        found = Some(id);
                    },
                }
            }
            i += 1;
        }
        Ok(found)
    }
}

/// The thread exists and has the agent path.
pub open spec fn has_path(threads: Map<ThreadId, ThreadRow>, id: ThreadId, path: Seq<char>) -> bool {
    threads.contains_key(id) && opt_view(threads[id].metadata.agent_path) == Some(path)
}

/// The result with the view of the error.
pub open spec fn found_view(result: Result<Option<ThreadId>, ThreadRelationError>) -> Result<Option<ThreadId>, ThreadRelationErrorView> {
    match result {
        Ok(found) => Ok(found),
        Err(error) => Err(error@),
    }
}

/// The one thread among `ids` that has the path: none if no thread has it, an error if several
/// have it.
pub open spec fn is_one_with_path(
    threads: Map<ThreadId, ThreadRow>,
    ids: Seq<ThreadId>,
    path: Seq<char>,
    result: Result<Option<ThreadId>, ThreadRelationErrorView>,
) -> bool {
    match result {
        Ok(Some(id)) => {
            &&& ids.contains(id)
            &&& has_path(threads, id, path)
            &&& forall|i: int| 0 <= i < ids.len() && has_path(threads, #[trigger] ids[i], path) ==> ids[i] == id
        },
        Ok(None) => forall|i: int| 0 <= i < ids.len() ==> !has_path(threads, #[trigger] ids[i], path),
        Err(error) => {
            &&& error == ThreadRelationErrorView::AmbiguousPath(path)
            &&& exists|a: ThreadId, b: ThreadId|
                #![trigger ids.contains(a), ids.contains(b)]
                ids.contains(a) && ids.contains(b) && a != b && has_path(threads, a, path) && has_path(threads, b, path)
        },
    }
}

/// The state with the edge in place of the one that its spawned thread had.
pub open spec fn with_edge(state: StateRuntimeView, edge: ThreadSpawnEdge) -> StateRuntimeView {
    StateRuntimeView { spawn_edges: state.spawn_edges.insert(edge.child_thread_id, edge), ..state }
}

/// The state with an open edge, unless the spawned thread has one.
pub open spec fn with_edge_if_absent(state: StateRuntimeView, parent: ThreadId, child: ThreadId) -> StateRuntimeView {
    if state.spawn_edges.contains_key(child) {
        state
    } else {
        with_edge(
            state,
            ThreadSpawnEdge { parent_thread_id: parent, child_thread_id: child, status: DirectionalThreadSpawnEdgeStatus::Open },
        )
    }
}

} // verus!
