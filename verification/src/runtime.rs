//! The runtime state as a whole: threads, their sections and relations, and the stores beside
//! them.

pub mod deletion;
pub mod listing;
pub mod listing_laws;
pub mod memory;
pub mod metadata;
pub mod order_laws;
pub mod page_laws;
pub mod place_laws;
pub mod query;
pub mod relation_laws;
pub mod relations;
pub mod section_laws;
pub mod section_order;
pub mod sections;
pub mod spawn_laws;
pub mod sql_laws;
pub mod store_laws;
pub mod stores;
pub mod thread_laws;

use crate::backend::RuntimeStateBackend;
use crate::backfill::BackfillCoordinator;
use crate::backfill::BackfillCoordinatorView;
use crate::external_agent_config_imports::ExternalAgentConfigImportStore;
use crate::external_agent_config_imports::ImportStoreView;
use crate::goals::GoalStore;
use crate::goals::GoalStoreView;
use crate::log_store::LogStore;
use crate::log_store::LogStoreView;
use crate::memory_store::MemoryStore;
use crate::memory_store::MemoryStoreView;
use crate::remote_control::EnrollmentStoreView;
use crate::remote_control::RemoteControlEnrollmentStore;
use crate::table::Table;
use crate::thread_id::ThreadId;
use crate::threads::ThreadRow;
use crate::threads::ThreadSection;
use crate::threads::ThreadSpawnEdge;
use vstd::prelude::*;

verus! {

/// The runtime state.
pub struct StateRuntime {
    backend: RuntimeStateBackend,
    threads: Table<ThreadRow>,
    sections: Table<ThreadSection>,
    spawn_edges: Table<ThreadSpawnEdge>,
    updated_at_mark: i64,
    recency_at_mark: i64,
    goals: GoalStore,
    memories: MemoryStore,
    logs: LogStore,
    backfill: BackfillCoordinator,
    imports: ExternalAgentConfigImportStore,
    enrollments: RemoteControlEnrollmentStore,
}

#[verifier::ext_equal]
pub struct StateRuntimeView {
    pub backend: RuntimeStateBackend,
    pub threads: Map<ThreadId, ThreadRow>,
    pub sections: Map<Seq<char>, ThreadSection>,
    /// For each spawned thread the edge from the thread that spawned it.
    pub spawn_edges: Map<ThreadId, ThreadSpawnEdge>,
    /// The latest times given out so far.
    pub updated_at_mark: i64,
    pub recency_at_mark: i64,
    pub goals: GoalStoreView,
    pub memories: MemoryStoreView,
    pub logs: LogStoreView,
    pub backfill: BackfillCoordinatorView,
    pub imports: ImportStoreView,
    pub enrollments: EnrollmentStoreView,
}

impl View for StateRuntime {
    type V = StateRuntimeView;

    closed spec fn view(&self) -> StateRuntimeView {
        StateRuntimeView {
            backend: self.backend,
            threads: self.threads@,
            sections: self.sections@,
            spawn_edges: self.spawn_edges@,
            updated_at_mark: self.updated_at_mark,
            recency_at_mark: self.recency_at_mark,
            goals: self.goals@,
            memories: self.memories@,
            logs: self.logs@,
            backfill: self.backfill@,
            imports: self.imports@,
            enrollments: self.enrollments@,
        }
    }
}

impl StateRuntimeView {
    /// Every row is found under its own key.
    pub open spec fn keyed(self) -> bool {
        &&& forall|id: ThreadId| #[trigger] self.threads.contains_key(id) ==> self.threads[id].metadata.id == id
        &&& forall|id: Seq<char>| #[trigger] self.sections.contains_key(id) ==> self.sections[id].id@ == id
        &&& forall|id: ThreadId| #[trigger] self.spawn_edges.contains_key(id) ==> self.spawn_edges[id].child_thread_id == id
    }

    /// There are no more threads and sections than can be counted.
    pub open spec fn countable(self) -> bool {
        crate::table::countable::<ThreadRow>(self.threads) && crate::table::countable::<ThreadSection>(self.sections)
    }

    pub open spec fn with_threads(self, threads: Map<ThreadId, ThreadRow>) -> StateRuntimeView {
        StateRuntimeView { threads, ..self }
    }

    pub open spec fn with_thread(self, row: ThreadRow) -> StateRuntimeView {
        self.with_threads(self.threads.insert(row.metadata.id, row))
    }
}

impl StateRuntime {
    /// The state with no rows at all.
    pub fn new(backend: RuntimeStateBackend) -> (runtime: Self)
        ensures
            runtime@.backend == backend,
            runtime@.threads == Map::<ThreadId, ThreadRow>::empty(),
            runtime@.sections == Map::<Seq<char>, ThreadSection>::empty(),
            runtime@.spawn_edges == Map::<ThreadId, ThreadSpawnEdge>::empty(),
            runtime@.updated_at_mark == 0,
            runtime@.recency_at_mark == 0,
            runtime@.goals == (GoalStoreView { closed: false, goals: Map::empty(), events: Map::empty(), deferrals: Set::empty() }),
            runtime@.memories == (MemoryStoreView {
                backend,
                jobs: Map::empty(),
                global_job: None,
                outputs: Map::empty(),
                generations: Seq::empty(),
                closed: false,
            }),
            runtime@.logs == (LogStoreView { backend, rows: Seq::empty(), last_id: 0, closed: false }),
            runtime@.backfill == (BackfillCoordinatorView { row: crate::backfill::initial_row(), closed: false }),
            runtime@.imports == (ImportStoreView { backend, imports: Map::empty() }),
            runtime@.enrollments == (EnrollmentStoreView { enrollments: Map::empty(), closed: false }),
    {
        StateRuntime {
            backend,
            threads: Table::new(),
            sections: Table::new(),
            spawn_edges: Table::new(),
            updated_at_mark: 0,
            recency_at_mark: 0,
            goals: GoalStore::new(),
            memories: MemoryStore::new(backend),
            logs: LogStore::new(backend),
            backfill: BackfillCoordinator::new(None),
            imports: ExternalAgentConfigImportStore::new(backend),
            enrollments: RemoteControlEnrollmentStore::new(),
        }
    }

    /// Every row of the state is found under its own key.
    pub proof fn lemma_keyed(&self)
        ensures
            self@.keyed(),
    {
        crate::table::lemma_keyed(self.threads);
        crate::table::lemma_keyed(self.sections);
        crate::table::lemma_keyed(self.spawn_edges);
    }

    /// The threads and sections of the state can be counted.
    pub proof fn lemma_countable(&self)
        ensures
            self@.countable(),
    {
        crate::table::lemma_countable(self.threads);
        crate::table::lemma_countable(self.sections);
    }

    /// Takes the given rows in place of the stored threads, sections and edges. The times given out
    /// so far stay known.
    pub fn replace_rows(&mut self, threads: Table<ThreadRow>, sections: Table<ThreadSection>, spawn_edges: Table<ThreadSpawnEdge>)
        ensures
            final(self)@ == (StateRuntimeView { threads: threads@, sections: sections@, spawn_edges: spawn_edges@, ..old(self)@ }),
    {
        self.threads = threads;
        self.sections = sections;
        self.spawn_edges = spawn_edges;
    }

    /// The stored threads.
    pub fn threads(&self) -> (threads: &Table<ThreadRow>)
        ensures
            threads@ == self@.threads,
    {
        &self.threads
    }

    /// The stored sections.
    pub fn sections(&self) -> (sections: &Table<ThreadSection>)
        ensures
            sections@ == self@.sections,
    {
        &self.sections
    }

    /// The edges of the spawned threads.
    pub fn spawn_edges(&self) -> (edges: &Table<ThreadSpawnEdge>)
        ensures
            edges@ == self@.spawn_edges,
    {
        &self.spawn_edges
    }
}

} // verus!
