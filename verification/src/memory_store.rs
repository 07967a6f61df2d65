//! Memory: stage-one outputs per thread, and the generations consolidated from them.
//!
//! Stage one extracts an output from each thread under a leased job of its own. Phase two, under
//! one global job, consolidates outputs into a memory generation.

use crate::backend::RuntimeStateBackend;
use crate::table::Row;
use crate::table::Table;
use crate::thread_id::opt_view;
use crate::thread_id::ThreadId;
use crate::threads::clone_text;
use vstd::prelude::*;

pub mod artifacts;
pub mod generation;
pub mod generation_laws;
pub mod history;
pub mod job;
pub mod job_laws;
pub mod laws;
pub mod output_laws;
pub mod outputs;
pub mod phase2;
pub mod stage1;
pub mod startup;
pub mod startup_laws;

pub use artifacts::memory_generation_from_rows;
pub use artifacts::total_artifact_bytes;
pub use artifacts::MemoryGenerationRow;
pub use artifacts::StoredArtifact;
pub use generation::artifact_views;
pub use generation::case_distinct;
pub use generation::is_artifact_set;
pub use generation::is_collision_free;
pub use generation::is_portable_path;
pub use generation::refuses_set;
pub use generation::same_members;
pub use generation::MemoryArtifact;
pub use generation::MemoryArtifactError;
pub use generation::MemoryArtifactSet;
pub use generation::MemoryArtifactView;
pub use generation::MemoryGeneration;
pub use generation::MemoryGenerationView;
pub use generation::MemoryWorkspaceMaterialization;
pub use history::canonical_memory_mode;
pub use history::HistoryItem;
pub use job::MemoryJob;
pub use job::MemoryJobStatus;
pub use job::MemoryJobView;
pub use job::MemoryStoreError;
pub use outputs::Stage1Output;
pub use outputs::Stage1OutputView;
pub use phase2::Phase2JobClaimOutcome;
pub use stage1::Stage1JobClaimOutcome;
pub use startup::Stage1JobClaim;
pub use startup::Stage1StartupClaimParams;
pub use startup::ThreadProjection;
pub use startup::thread_metadata_from_projection;

verus! {

/// The stage-one job of a thread.
#[derive(Debug, PartialEq, Eq)]
pub struct Stage1Job {
    pub thread_id: ThreadId,
    pub job: MemoryJob,
}

#[verifier::ext_equal]
pub struct Stage1JobView {
    pub thread_id: ThreadId,
    pub job: MemoryJobView,
}

impl View for Stage1Job {
    type V = Stage1JobView;

    open spec fn view(&self) -> Stage1JobView {
        Stage1JobView { thread_id: self.thread_id, job: self.job@ }
    }
}

impl Row for Stage1Job {
    type Key = ThreadId;

    open spec fn key_of(row: Stage1JobView) -> ThreadId {
        row.thread_id
    }

    fn has_key(&self, key: &ThreadId) -> (found: bool) {
        assert(key@ == *key);
        self.thread_id == *key
    }

    fn same_key(&self, other: &Self) -> (same: bool) {
        self.thread_id == other.thread_id
    }

    fn duplicate(&self) -> (copy: Self) {
        Stage1Job { thread_id: self.thread_id, job: self.job.clone() }
    }
}

/// What stage one extracted from a thread, and how phase two has used it. Times are seconds since
/// the Unix epoch.
#[derive(Debug, PartialEq, Eq)]
pub struct Stage1OutputRow {
    pub thread_id: ThreadId,
    pub source_updated_at: i64,
    pub raw_memory: String,
    pub rollout_summary: String,
    pub rollout_slug: Option<String>,
    pub generated_at: i64,
    pub usage_count: Option<i64>,
    pub last_usage: Option<i64>,
    pub selected_for_phase2: bool,
    pub selected_for_phase2_source_updated_at: Option<i64>,
}

#[verifier::ext_equal]
pub struct Stage1OutputRowView {
    pub thread_id: ThreadId,
    pub source_updated_at: i64,
    pub raw_memory: Seq<char>,
    pub rollout_summary: Seq<char>,
    pub rollout_slug: Option<Seq<char>>,
    pub generated_at: i64,
    pub usage_count: Option<i64>,
    pub last_usage: Option<i64>,
    pub selected_for_phase2: bool,
    pub selected_for_phase2_source_updated_at: Option<i64>,
}

impl View for Stage1OutputRow {
    type V = Stage1OutputRowView;

    open spec fn view(&self) -> Stage1OutputRowView {
        Stage1OutputRowView {
            thread_id: self.thread_id,
            source_updated_at: self.source_updated_at,
            raw_memory: self.raw_memory@,
            rollout_summary: self.rollout_summary@,
            rollout_slug: opt_view(self.rollout_slug),
            generated_at: self.generated_at,
            usage_count: self.usage_count,
            last_usage: self.last_usage,
            selected_for_phase2: self.selected_for_phase2,
            selected_for_phase2_source_updated_at: self.selected_for_phase2_source_updated_at,
        }
    }
}

impl Row for Stage1OutputRow {
    type Key = ThreadId;

    open spec fn key_of(row: Stage1OutputRowView) -> ThreadId {
        row.thread_id
    }

    fn has_key(&self, key: &ThreadId) -> (found: bool) {
        assert(key@ == *key);
        self.thread_id == *key
    }

    fn same_key(&self, other: &Self) -> (same: bool) {
        self.thread_id == other.thread_id
    }

    fn duplicate(&self) -> (copy: Self) {
        Stage1OutputRow {
            thread_id: self.thread_id,
            source_updated_at: self.source_updated_at,
            raw_memory: self.raw_memory.clone(),
            rollout_summary: self.rollout_summary.clone(),
            rollout_slug: clone_text(&self.rollout_slug),
            generated_at: self.generated_at,
            usage_count: self.usage_count,
            last_usage: self.last_usage,
            selected_for_phase2: self.selected_for_phase2,
            selected_for_phase2_source_updated_at: self.selected_for_phase2_source_updated_at,
        }
    }
}

/// The memory jobs, outputs and generations.
pub struct MemoryStore {
    backend: RuntimeStateBackend,
    jobs: Table<Stage1Job>,
    global_job: Option<MemoryJob>,
    outputs: Table<Stage1OutputRow>,
    generations: Vec<MemoryGeneration>,
    closed: bool,
}

#[verifier::ext_equal]
pub struct MemoryStoreView {
    pub backend: RuntimeStateBackend,
    pub jobs: Map<ThreadId, Stage1JobView>,
    /// The one phase-two job, once something was enqueued for it.
    pub global_job: Option<MemoryJobView>,
    pub outputs: Map<ThreadId, Stage1OutputRowView>,
    /// The published generations, the active one last.
    pub generations: Seq<MemoryGenerationView>,
    /// Whether the store was closed: its operations then fail.
    pub closed: bool,
}

/// What an operation leads to: on a closed store, to an error and to no change.
pub open spec fn unless_closed<T>(
    state: MemoryStoreView,
    outcome: (MemoryStoreView, Result<T, MemoryStoreError>),
) -> (MemoryStoreView, Result<T, MemoryStoreError>) {
    if state.closed {
        (state, Err(MemoryStoreError::Closed))
    } else {
        outcome
    }
}

/// The views of generations.
pub open spec fn generation_views(generations: Seq<MemoryGeneration>) -> Seq<MemoryGenerationView> {
    Seq::new(generations.len(), |i: int| generations[i]@)
}

impl View for MemoryStore {
    type V = MemoryStoreView;

    closed spec fn view(&self) -> MemoryStoreView {
        MemoryStoreView {
            backend: self.backend,
            jobs: self.jobs@,
            global_job: opt_view(self.global_job),
            outputs: self.outputs@,
            generations: generation_views(self.generations@),
            closed: self.closed,
        }
    }
}

impl MemoryStoreView {
    /// The stage-one job of a thread.
    pub open spec fn job(self, thread_id: ThreadId) -> Option<MemoryJobView> {
        if self.jobs.contains_key(thread_id) {
            Some(self.jobs[thread_id].job)
        } else {
            None
        }
    }

    /// The output of a thread.
    pub open spec fn output(self, thread_id: ThreadId) -> Option<Stage1OutputRowView> {
        if self.outputs.contains_key(thread_id) {
            Some(self.outputs[thread_id])
        } else {
            None
        }
    }

    /// The generation that was published last.
    pub open spec fn active_generation(self) -> Option<MemoryGenerationView> {
        if self.generations.len() > 0 {
            Some(self.generations.last())
        } else {
            None
        }
    }

    /// Every row is stored under its own thread.
    pub open spec fn keyed(self) -> bool {
        &&& forall|thread_id: ThreadId| #[trigger] self.jobs.contains_key(thread_id) ==> self.jobs[thread_id].thread_id == thread_id
        &&& forall|thread_id: ThreadId| #[trigger] self.outputs.contains_key(thread_id) ==> self.outputs[thread_id].thread_id == thread_id
    }

    pub open spec fn with_job(self, thread_id: ThreadId, job: MemoryJobView) -> MemoryStoreView {
        MemoryStoreView { jobs: self.jobs.insert(thread_id, Stage1JobView { thread_id, job }), ..self }
    }

    pub open spec fn with_global_job(self, job: MemoryJobView) -> MemoryStoreView {
        MemoryStoreView { global_job: Some(job), ..self }
    }
}

impl MemoryStore {
    /// A store that holds nothing yet.
    pub fn new(backend: RuntimeStateBackend) -> (store: Self)
        ensures
            store@ == (MemoryStoreView {
                backend,
                jobs: Map::empty(),
                global_job: None,
                outputs: Map::empty(),
                generations: Seq::empty(),
                closed: false,
            }),
    {
        let store = MemoryStore {
            backend,
            jobs: Table::new(),
            global_job: None,
            outputs: Table::new(),
            generations: Vec::new(),
            closed: false,
        };
        assert(store@.generations =~= Seq::empty());
        store
    }

    /// A store with the given rows.
    pub fn from_rows(
        backend: RuntimeStateBackend,
        jobs: Table<Stage1Job>,
        global_job: Option<MemoryJob>,
        outputs: Table<Stage1OutputRow>,
        generations: Vec<MemoryGeneration>,
    ) -> (store: Self)
        ensures
            store@ == (MemoryStoreView {
                backend,
                jobs: jobs@,
                global_job: opt_view(global_job),
                outputs: outputs@,
                generations: generation_views(generations@),
                closed: false,
            }),
    {
        MemoryStore { backend, jobs, global_job, outputs, generations, closed: false }
    }

    /// Close the store: from here on every operation that needs its rows fails.
    pub fn close(&mut self)
        ensures
            final(self)@ == (MemoryStoreView { closed: true, ..old(self)@ }),
    {
        self.closed = true;
    }

    pub(crate) fn is_closed(&self) -> (closed: bool)
        ensures
            closed == self@.closed,
    {
        self.closed
    }

    /// The stage-one jobs.
    pub fn jobs(&self) -> (jobs: &Table<Stage1Job>)
        ensures
            jobs@ == self@.jobs,
    {
        &self.jobs
    }

    /// The phase-two job.
    pub fn global_job(&self) -> (job: &Option<MemoryJob>)
        ensures
            opt_view(*job) == self@.global_job,
    {
        &self.global_job
    }

    /// The outputs of stage one.
    pub fn outputs(&self) -> (outputs: &Table<Stage1OutputRow>)
        ensures
            outputs@ == self@.outputs,
    {
        &self.outputs
    }

    /// The published generations, the active one last.
    pub fn generations(&self) -> (generations: &[MemoryGeneration])
        ensures
            generation_views(generations@) == self@.generations,
    {
        self.generations.as_slice()
    }

    /// The rows of a store are keyed.
    pub proof fn lemma_keyed(&self)
        ensures
            self@.keyed(),
    {
        crate::table::lemma_keyed(self.jobs);
        crate::table::lemma_keyed(self.outputs);
    }
}

} // verus!
