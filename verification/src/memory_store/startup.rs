//! Claims at startup, pollution, deletion and reset.

use super::job::duration;
use super::job::duration_of;
use super::outputs::is_enabled;
use super::outputs::is_enabled_thread;
use super::phase2::enqueue_job;
use super::phase2::enqueued;
use super::stage1::claiming;
use super::stage1::Stage1Decision;
use super::stage1::Stage1JobClaimOutcome;
use super::unless_closed;
use super::MemoryStore;
use super::MemoryStoreError;
use super::MemoryStoreView;
use crate::backend::RuntimeStateBackend;
use crate::outside::new_identifier;
use crate::table::is_listing;
use crate::table::views;
use crate::table::Condition;
use crate::table::Ranking;
use crate::table::Table;
use crate::text::has_text;
use crate::text::holds_text;
use crate::text::same_text;
use crate::text::text_views;
use crate::thread_id::ThreadId;
use crate::threads::clone_text;
use crate::threads::ThreadHistoryMode;
use crate::threads::ThreadMetadata;
use crate::threads::ThreadRow;
use crate::time::whole_seconds;
use crate::time::whole_seconds_of;
use vstd::prelude::*;
use vstd::string::*;

verus! {

/// Which threads to claim at startup, and how many.
#[derive(Debug)]
pub struct Stage1StartupClaimParams<'a> {
    pub scan_limit: usize,
    pub max_claimed: usize,
    pub max_age_days: i64,
    pub min_rollout_idle_hours: i64,
    /// Sources to claim from; every source if there are none.
    pub allowed_sources: &'a [String],
    pub lease_seconds: i64,
}

/// A thread whose job was claimed.
#[derive(Debug, PartialEq, Eq)]
pub struct Stage1JobClaim {
    pub thread: ThreadMetadata,
    pub ownership_token: String,
}

/// Threads to claim from: not archived, with a preview, from an allowed source, not the current
/// one, idle for long enough but not for too long, and enabled.
pub struct StartupThreads<'a> {
    pub current_thread_id: ThreadId,
    pub allowed_sources: &'a [String],
    pub oldest: i128,
    pub newest: i128,
}

impl<'a> Condition<ThreadRow> for StartupThreads<'a> {
    open spec fn holds(&self, row: ThreadRow) -> bool {
        &&& row.metadata.archived_at is None
        &&& row.metadata.preview is Some && row.metadata.preview->0@.len() > 0
        &&& self.allowed_sources@.len() == 0 || holds_text(self.allowed_sources@, row.metadata.source@)
        &&& row.metadata.id != self.current_thread_id
        &&& self.oldest <= row.metadata.updated_at <= self.newest
        &&& is_enabled(row)
    }

    fn test(&self, row: &ThreadRow) -> (held: bool) {
        let has_preview = match &row.metadata.preview {
            Some(preview) => !preview.as_str().is_empty(),
            None => false,
        };
        let updated_at: i128 = row.metadata.updated_at as i128;
        row.metadata.archived_at.is_none() && has_preview && (self.allowed_sources.len() == 0 || has_text(self.allowed_sources, row.metadata.source.as_str()))
            && row.metadata.id != self.current_thread_id && self.oldest <= updated_at && updated_at <= self.newest && is_enabled_thread(row)
    }
}

/// Most recently updated first.
pub struct LatestUpdate {}

impl Ranking<ThreadRow> for LatestUpdate {
    open spec fn before(&self, a: ThreadRow, b: ThreadRow) -> bool {
        a.metadata.updated_at > b.metadata.updated_at
    }

    fn is_before(&self, a: &ThreadRow, b: &ThreadRow) -> (r: bool) {
        a.metadata.updated_at > b.metadata.updated_at
    }

    proof fn asymmetric(&self, a: ThreadRow, b: ThreadRow) {
    }

    proof fn negatively_transitive(&self, a: ThreadRow, b: ThreadRow, c: ThreadRow) {
    }
}

/// The product, or the largest number of seconds there is.
pub open spec fn span_seconds(count: i64, unit_seconds: int) -> int {
    if duration(count) * unit_seconds > i64::MAX {
        i64::MAX as int
    } else {
        duration(count) * unit_seconds
    }
}

fn span(count: i64, unit_seconds: i64) -> (seconds: i64)
    requires
        unit_seconds > 0,
    ensures
        seconds == span_seconds(count, unit_seconds as int),
        seconds >= 0,
{
    let whole: i64 = duration_of(count);
    assert(whole * unit_seconds >= 0) by (nonlinear_arith)
        requires
            whole >= 0,
            unit_seconds > 0,
    ;
    match whole.checked_mul(unit_seconds) {
        Some(seconds) => seconds,
        None => i64::MAX,
    }
}

/// The threads that a startup looks at.
pub open spec fn startup_condition<'a>(
    current_thread_id: ThreadId,
    params: Stage1StartupClaimParams<'a>,
    now_ms: i64,
) -> StartupThreads<'a> {
    StartupThreads {
        current_thread_id,
        allowed_sources: params.allowed_sources,
        oldest: (now_ms - span_seconds(params.max_age_days, 86_400) * 1000) as i128,
        newest: (now_ms - span_seconds(params.min_rollout_idle_hours, 3_600) * 1000) as i128,
    }
}

/// The metadata of rows.
pub open spec fn metadata_of(rows: Seq<ThreadRow>) -> Seq<ThreadMetadata> {
    Seq::new(rows.len(), |i: int| rows[i].metadata)
}

/// The threads and tokens of claims.
pub open spec fn claim_views(claims: Seq<Stage1JobClaim>) -> Seq<(ThreadMetadata, Seq<char>)> {
    Seq::new(claims.len(), |i: int| (claims[i].thread, claims[i].ownership_token@))
}

/// Claim the candidates one after the other, each under its token, until enough are claimed.
pub open spec fn claims_from(
    state: MemoryStoreView,
    worker_id: ThreadId,
    candidates: Seq<ThreadMetadata>,
    tokens: Seq<Seq<char>>,
    lease_seconds: i64,
    max_claimed: nat,
    now: i64,
    claimed: nat,
) -> (MemoryStoreView, Seq<(ThreadMetadata, Seq<char>)>)
    decreases candidates.len(),
{
    if candidates.len() == 0 || claimed >= max_claimed {
        (state, Seq::empty())
    } else {
        let thread = candidates[0];
        let (after, decision) = claiming(state, thread.id, worker_id, tokens[0], whole_seconds(thread.updated_at), lease_seconds, max_claimed, now);
        if decision == Stage1Decision::Claim {
            let rest = claims_from(after, worker_id, candidates.drop_first(), tokens.drop_first(), lease_seconds, max_claimed, now, claimed + 1);
            (rest.0, seq![(thread, tokens[0])] + rest.1)
        } else {
            claims_from(after, worker_id, candidates.drop_first(), tokens.drop_first(), lease_seconds, max_claimed, now, claimed)
        }
    }
}

/// Pollution is to be recorded for the thread: nothing says yet that it is polluted.
pub open spec fn is_pollution_news(thread: ThreadRow) -> bool {
    &&& thread.memory_mode@ != "polluted"@
    &&& !(thread.polluted_at_stream_version is Some && thread.polluted_at_stream_version->0 > thread.memory_mode_ordinal)
}

/// `after` is the thread with pollution recorded. The local database overwrites the mode; the
/// shared one keeps the history as it is and notes how long it was.
pub open spec fn is_polluted_version(backend: RuntimeStateBackend, before: ThreadRow, after: ThreadRow) -> bool {
    match backend {
        RuntimeStateBackend::Sqlite => {
            after.memory_mode@ == "polluted"@ && after == (ThreadRow { memory_mode: after.memory_mode, ..before })
        },
        RuntimeStateBackend::Postgresql => {
            after == (ThreadRow { polluted_at_stream_version: Some(before.stream_version), ..before })
        },
    }
}

/// The threads once pollution was detected in one of them.
pub open spec fn polluted_threads(
    backend: RuntimeStateBackend,
    before: Map<ThreadId, ThreadRow>,
    thread_id: ThreadId,
    after: Map<ThreadId, ThreadRow>,
) -> bool {
    if before.contains_key(thread_id) && is_pollution_news(before[thread_id]) {
        exists|row: ThreadRow| #[trigger] is_polluted_version(backend, before[thread_id], row) && after == before.insert(thread_id, row)
    } else {
        after == before
    }
}

/// A consolidation rests on the output of the thread.
pub open spec fn is_selected(state: MemoryStoreView, thread_id: ThreadId) -> bool {
    state.output(thread_id) is Some && state.output(thread_id)->0.selected_for_phase2
}

/// What becomes of the memory of a thread that is forgotten: nothing, if the consolidation that is
/// then due cannot be enqueued.
pub open spec fn forgetting(state: MemoryStoreView, thread_id: ThreadId, now: i64) -> Option<MemoryStoreView> {
    let forgotten = MemoryStoreView { jobs: state.jobs.remove(thread_id), outputs: state.outputs.remove(thread_id), ..state };
    if !is_selected(state, thread_id) {
        Some(forgotten)
    } else {
        match enqueued(state.global_job, now) {
            Some(job) => Some(forgotten.with_global_job(job)),
            None => None,
        }
    }
}

/// What claiming jobs at startup leads to.
pub open spec fn claims_at_startup(
    before: MemoryStoreView,
    threads: Map<ThreadId, ThreadRow>,
    current_thread_id: ThreadId,
    params: Stage1StartupClaimParams<'_>,
    now_ms: i64,
    after: MemoryStoreView,
    result: Result<Vec<Stage1JobClaim>, MemoryStoreError>,
) -> bool {
    if params.scan_limit == 0 || params.max_claimed == 0 {
        after == before && result is Ok && result->Ok_0@.len() == 0
    } else if before.closed {
        after == before && result == Err::<Vec<Stage1JobClaim>, MemoryStoreError>(MemoryStoreError::Closed)
    } else {
        result is Ok && exists|rows: Seq<ThreadRow>, tokens: Seq<Seq<char>>| {
            &&& #[trigger] is_listing::<ThreadRow, StartupThreads, LatestUpdate>(
                threads,
                startup_condition(current_thread_id, params, now_ms),
                LatestUpdate {  },
                params.scan_limit as nat,
                rows,
            )
            &&& (after, claim_views(result->Ok_0@)) == #[trigger] claims_from(
                before,
                current_thread_id,
                metadata_of(rows),
                tokens,
                params.lease_seconds,
                params.max_claimed as nat,
                whole_seconds(now_ms),
                0,
            )
        }
    }
}

impl MemoryStore {
    /// Forget all jobs, outputs and generations. What is known of threads stays.
    pub fn clear_memory_data(&mut self) -> (result: Result<(), MemoryStoreError>)
        ensures
            (final(self)@, result) == unless_closed(
                old(self)@,
                (
                    MemoryStoreView {
                        backend: old(self)@.backend,
                        jobs: Map::empty(),
                        global_job: None,
                        outputs: Map::empty(),
                        generations: Seq::empty(),
                        closed: false,
                    },
                    Ok(()),
                ),
            ),
    {
        if self.closed {
            return Err(MemoryStoreError::Closed);
        }
        self.jobs = Table::new();
        self.global_job = None;
        self.outputs = Table::new();
        self.generations = Vec::new();
        assert(self@.generations =~= Seq::empty());
        Ok(())
    }

    /// Forget the job and the output of a thread. If a consolidation rests on the output, another
    /// one is enqueued.
    pub fn delete_thread_memory(&mut self, thread_id: ThreadId, now: i64) -> (result: Result<(), MemoryStoreError>)
        ensures
            match result {
                Ok(_) => !old(self)@.closed && forgetting(old(self)@, thread_id, now) == Some(final(self)@),
                Err(error) => {
                    &&& final(self)@ == old(self)@
                    &&& if old(self)@.closed {
                        error == MemoryStoreError::Closed
                    } else {
                        forgetting(old(self)@, thread_id, now) is None && error == MemoryStoreError::OutOfRange
                    }
                },
            },
    {
        if self.closed {
            return Err(MemoryStoreError::Closed);
        }
        let selected = match self.outputs.get(&thread_id) {
            Some(output) => output.selected_for_phase2,
            None => false,
        };
        if selected {
            match enqueue_job(&self.global_job, now) {
                Ok(job) => {
                    self.global_job = Some(job);
                },
                Err(error) => {
                    return Err(error);
                },
            }
        }
        self.outputs.remove(&thread_id);
        self.jobs.remove(&thread_id);
        Ok(())
    }

    /// Drop the rows of a thread, as happens when the thread itself is deleted from under them.
    pub(crate) fn drop_thread_rows(&mut self, thread_id: ThreadId)
        ensures
            final(self)@ == (MemoryStoreView {
                jobs: old(self)@.jobs.remove(thread_id),
                outputs: old(self)@.outputs.remove(thread_id),
                ..old(self)@
            }),
    {
        self.outputs.remove(&thread_id);
        self.jobs.remove(&thread_id);
    }

    /// The threads that a startup looks at, most recently updated first.
    pub fn startup_candidates(
        threads: &Table<ThreadRow>,
        current_thread_id: ThreadId,
        params: &Stage1StartupClaimParams<'_>,
        now_ms: i64,
    ) -> (candidates: Vec<ThreadMetadata>)
        ensures
            exists|rows: Seq<ThreadRow>| {
                &&& #[trigger] is_listing::<ThreadRow, StartupThreads, LatestUpdate>(
                    threads@,
                    startup_condition(current_thread_id, *params, now_ms),
                    LatestUpdate {  },
                    params.scan_limit as nat,
                    rows,
                )
                &&& candidates@ == metadata_of(rows)
            },
    {
        let max_age: i64 = span(params.max_age_days, 86_400);
        let min_idle: i64 = span(params.min_rollout_idle_hours, 3_600);
        let condition = StartupThreads {
            current_thread_id,
            allowed_sources: params.allowed_sources,
            oldest: now_ms as i128 - max_age as i128 * 1000,
            newest: now_ms as i128 - min_idle as i128 * 1000,
        };
        let ranking = LatestUpdate {  };
        assert(condition == startup_condition(current_thread_id, *params, now_ms));
        let rows = threads.select(&condition, &ranking, params.scan_limit);
        let ghost listed = views(rows@);
        let mut candidates: Vec<ThreadMetadata> = Vec::new();
        let mut i: usize = 0;
        while i < rows.len()
            invariant
                listed == views(rows@),
                i <= rows@.len(),
                candidates@ == metadata_of(listed.take(i as int)),
            decreases rows@.len() - i,
        {
            assert(listed[i as int] == rows@[i as int]);
            candidates.push(rows[i].metadata.clone());
            assert(metadata_of(listed.take(i + 1)) =~= metadata_of(listed.take(i as int)).push(listed[i as int].metadata));
            i += 1;
        }
        assert(listed.take(i as int) =~= listed);
        candidates
    }

    /// Claim the candidates one after the other, each under its token, until enough are claimed.
    pub fn claim_candidates(
        &mut self,
        worker_id: ThreadId,
        candidates: Vec<ThreadMetadata>,
        tokens: Vec<String>,
        lease_seconds: i64,
        max_claimed: usize,
        now: i64,
    ) -> (result: Result<Vec<Stage1JobClaim>, MemoryStoreError>)
        requires
            tokens@.len() == candidates@.len(),
        ensures
            match result {
                Ok(claims) => {
                    &&& !old(self)@.closed
                    &&& (final(self)@, claim_views(claims@)) == claims_from(
                        old(self)@,
                        worker_id,
                        candidates@,
                        text_views(tokens@),
                        lease_seconds,
                        max_claimed as nat,
                        now,
                        0,
                    )
                },
                Err(error) => old(self)@.closed && error == MemoryStoreError::Closed && final(self)@ == old(self)@,
            },
    {
        if self.closed {
            return Err(MemoryStoreError::Closed);
        }
        let ghost all_tokens = text_views(tokens@);
        let ghost goal = claims_from(self@, worker_id, candidates@, all_tokens, lease_seconds, max_claimed as nat, now, 0);
        let mut claims: Vec<Stage1JobClaim> = Vec::new();
        let mut i: usize = 0;
        assert(candidates@.skip(0) =~= candidates@ && all_tokens.skip(0) =~= all_tokens);
        assert(claim_views(claims@) + goal.1 =~= goal.1);
        while i < candidates.len() && claims.len() < max_claimed
            invariant
                tokens@.len() == candidates@.len(),
                all_tokens == text_views(tokens@),
                i <= candidates@.len(),
                claims@.len() <= i,
                !self@.closed,
                !old(self)@.closed,
                ({
                    let rest = claims_from(self@, worker_id, candidates@.skip(i as int), all_tokens.skip(i as int), lease_seconds, max_claimed as nat, now, claims@.len());
                    goal == (rest.0, claim_views(claims@) + rest.1)
                }),
            decreases candidates@.len() - i,
        {
            let ghost done = claim_views(claims@);
            let ghost count = claims@.len();
            let thread = candidates[i].clone();
            let token = tokens[i].clone();
            proof {
                assert(all_tokens[i as int] == tokens@[i as int]@);
                assert(candidates@.skip(i as int).drop_first() =~= candidates@.skip(i + 1));
                assert(all_tokens.skip(i as int).drop_first() =~= all_tokens.skip(i + 1));
                assert(candidates@.skip(i as int)[0] == thread);
                assert(all_tokens.skip(i as int)[0] == token@);
            }
            let outcome = self.try_claim_stage1_job_as(
                thread.id,
                worker_id,
                token,
                whole_seconds_of(thread.updated_at),
                lease_seconds,
                max_claimed,
                now,
            );
            match outcome {
                Err(error) => {
                    return Err(error);
                },
                Ok(Stage1JobClaimOutcome::Claimed { ownership_token }) => {
                    let claim = Stage1JobClaim { thread, ownership_token };
                    claims.push(claim);
                    proof {
                        let rest = claims_from(self@, worker_id, candidates@.skip(i + 1), all_tokens.skip(i + 1), lease_seconds, max_claimed as nat, now, count + 1);
                        assert(claim_views(claims@) =~= done.push((candidates@[i as int], all_tokens[i as int])));
                        assert(done + (seq![(candidates@[i as int], all_tokens[i as int])] + rest.1) =~= claim_views(claims@) + rest.1);
                    }
                },
                _ => {},
            }
            i += 1;
        }
        proof {
            let rest = claims_from(self@, worker_id, candidates@.skip(i as int), all_tokens.skip(i as int), lease_seconds, max_claimed as nat, now, claims@.len());
            assert(rest.1 =~= Seq::empty());
            assert(claim_views(claims@) + rest.1 =~= claim_views(claims@));
        }
        Ok(claims)
    }

    /// Claim the jobs of idle threads, at most `max_claimed` of them, each under a fresh token.
    pub fn claim_stage1_jobs_for_startup(
        &mut self,
        threads: &Table<ThreadRow>,
        current_thread_id: ThreadId,
        params: Stage1StartupClaimParams<'_>,
        now_ms: i64,
    ) -> (result: Result<Vec<Stage1JobClaim>, MemoryStoreError>)
        ensures
            claims_at_startup(old(self)@, threads@, current_thread_id, params, now_ms, final(self)@, result),
    {
        if params.scan_limit == 0 || params.max_claimed == 0 {
            return Ok(Vec::new());
        }
        if self.closed {
            return Err(MemoryStoreError::Closed);
        }
        let candidates = MemoryStore::startup_candidates(threads, current_thread_id, &params, now_ms);
        let mut tokens: Vec<String> = Vec::new();
        while tokens.len() < candidates.len()
            invariant
                tokens@.len() <= candidates@.len(),
            decreases candidates@.len() - tokens@.len(),
        {
            tokens.push(new_identifier());
        }
        self.claim_candidates(current_thread_id, candidates, tokens, params.lease_seconds, params.max_claimed, whole_seconds_of(now_ms))
    }

    /// Records runtime-detected pollution without rewriting Canonical Thread History.
    ///
    /// The stored stream version makes the override temporary: an explicit memory-mode entry
    /// subsequently appended to the history has an ordinal at or above this version and wins.
    pub fn mark_thread_memory_mode_polluted(
        &mut self,
        threads: &mut Table<ThreadRow>,
        thread_id: ThreadId,
        now: i64,
    ) -> (result: Result<bool, MemoryStoreError>)
        ensures
            match result {
                Ok(changed) => {
                    &&& !old(self)@.closed
                    &&& changed == (old(threads)@.contains_key(thread_id) && is_pollution_news(old(threads)@[thread_id]))
                    &&& polluted_threads(old(self)@.backend, old(threads)@, thread_id, final(threads)@)
                    &&& if old(threads)@.contains_key(thread_id) && is_selected(old(self)@, thread_id) {
                        &&& enqueued(old(self)@.global_job, now) is Some
                        &&& final(self)@ == old(self)@.with_global_job(enqueued(old(self)@.global_job, now)->0)
                    } else {
                        final(self)@ == old(self)@
                    }
                },
                Err(error) => {
                    &&& final(self)@ == old(self)@
                    &&& final(threads)@ == old(threads)@
                    &&& if old(self)@.closed {
                        error == MemoryStoreError::Closed
                    } else {
                        &&& error == MemoryStoreError::OutOfRange
                        &&& old(threads)@.contains_key(thread_id)
                        &&& is_selected(old(self)@, thread_id)
                        &&& enqueued(old(self)@.global_job, now) is None
                    }
                },
            },
    {
        if self.closed {
            return Err(MemoryStoreError::Closed);
        }
        let mut row = match threads.get(&thread_id) {
            Some(row) => row.clone(),
            None => {
                return Ok(false);
            },
        };
        let selected = match self.outputs.get(&thread_id) {
            Some(output) => output.selected_for_phase2,
            None => false,
        };
        if selected {
            match enqueue_job(&self.global_job, now) {
                Ok(job) => {
                    self.global_job = Some(job);
                },
                Err(error) => {
                    return Err(error);
                },
            }
        }
        let overridden = match row.polluted_at_stream_version {
            Some(version) => version > row.memory_mode_ordinal,
            None => false,
        };
        let changed = !overridden && !same_text(row.memory_mode.as_str(), "polluted");
        if changed {
            let ghost before = row;
            match self.backend {
                RuntimeStateBackend::Sqlite => {
                    row.memory_mode = String::from_str("polluted");
                },
                RuntimeStateBackend::Postgresql => {
                    row.polluted_at_stream_version = Some(row.stream_version);
                },
            }
            assert(is_polluted_version(old(self)@.backend, before, row));
            threads.put(row);
        }
        Ok(changed)
    }
}

/// What the shared database knows of a thread, decoded into plain values.
#[derive(Debug)]
pub struct ThreadProjection {
    pub thread_id: ThreadId,
    pub rollout_path: Option<String>,
    pub preview: String,
    pub name: Option<String>,
    pub model_provider: String,
    pub model: Option<String>,
    pub reasoning_effort: Option<String>,
    pub created_at: i64,
    pub updated_at: i64,
    pub recency_at: i64,
    pub archived_at: Option<i64>,
    pub is_pinned: bool,
    pub cwd: String,
    pub cli_version: String,
    pub source: String,
    pub history_mode: ThreadHistoryMode,
    pub thread_source: Option<String>,
    pub agent_nickname: Option<String>,
    pub agent_role: Option<String>,
    pub agent_path: Option<String>,
    pub git_commit_hash: Option<String>,
    pub git_branch: Option<String>,
    pub git_repository_url: Option<String>,
    pub approval_mode: String,
    /// The permission profile in its serialized form.
    pub permission_profile: String,
    pub total_tokens: Option<i64>,
    pub first_user_message: Option<String>,
}

/// The title that a thread shows: legacy threads show their name, paginated ones their preview.
pub open spec fn projected_title(projection: ThreadProjection) -> Seq<char> {
    match (projection.history_mode, projection.name) {
        (ThreadHistoryMode::Legacy, Some(name)) => name@,
        _ => projection.preview@,
    }
}

/// The metadata of a thread as the shared database knows it.
pub fn thread_metadata_from_projection(projection: ThreadProjection) -> (metadata: ThreadMetadata)
    ensures
        metadata.title@ == projected_title(projection),
        metadata.rollout_path@ == match projection.rollout_path {
            Some(path) => path@,
            None => Seq::empty(),
        },
        metadata == (ThreadMetadata {
            id: projection.thread_id,
            rollout_path: metadata.rollout_path,
            created_at: projection.created_at,
            updated_at: projection.updated_at,
            recency_at: projection.recency_at,
            source: projection.source,
            history_mode: projection.history_mode,
            thread_source: projection.thread_source,
            agent_nickname: projection.agent_nickname,
            agent_role: projection.agent_role,
            agent_path: projection.agent_path,
            model_provider: projection.model_provider,
            model: projection.model,
            reasoning_effort: projection.reasoning_effort,
            cwd: projection.cwd,
            cli_version: projection.cli_version,
            title: metadata.title,
            name: match projection.history_mode {
                ThreadHistoryMode::Legacy => None,
                ThreadHistoryMode::Paginated => projection.name,
            },
            preview: Some(projection.preview),
            sandbox_policy: projection.permission_profile,
            approval_mode: projection.approval_mode,
            tokens_used: match projection.total_tokens {
                Some(total) => duration(total),
                None => 0,
            },
            first_user_message: projection.first_user_message,
            archived_at: projection.archived_at,
            section: None,
            section_position: None,
            section_entered_at: None,
            is_pinned: projection.is_pinned,
            git_sha: projection.git_commit_hash,
            git_branch: projection.git_branch,
            git_origin_url: projection.git_repository_url,
            repository_identity: None,
        }),
{
    let (title, name) = match projection.history_mode {
        ThreadHistoryMode::Legacy => (
            match &projection.name {
                Some(name) => name.clone(),
                None => projection.preview.clone(),
            },
            None,
        ),
        ThreadHistoryMode::Paginated => (projection.preview.clone(), clone_text(&projection.name)),
    };
    ThreadMetadata {
        id: projection.thread_id,
        rollout_path: match projection.rollout_path {
            Some(path) => path,
            None => String::new(),
        },
        created_at: projection.created_at,
        updated_at: projection.updated_at,
        recency_at: projection.recency_at,
        source: projection.source,
        history_mode: projection.history_mode,
        thread_source: projection.thread_source,
        agent_nickname: projection.agent_nickname,
        agent_role: projection.agent_role,
        agent_path: projection.agent_path,
        model_provider: projection.model_provider,
        model: projection.model,
        reasoning_effort: projection.reasoning_effort,
        cwd: projection.cwd,
        cli_version: projection.cli_version,
        title,
        name,
        preview: Some(projection.preview),
        sandbox_policy: projection.permission_profile,
        approval_mode: projection.approval_mode,
        tokens_used: match projection.total_tokens {
            Some(total) => duration_of(total),
            None => 0,
        },
        first_user_message: projection.first_user_message,
        archived_at: projection.archived_at,
        section: None,
        section_position: None,
        section_entered_at: None,
        is_pinned: projection.is_pinned,
        git_sha: projection.git_commit_hash,
        git_branch: projection.git_branch,
        git_origin_url: projection.git_repository_url,
        repository_identity: None,
    }
}

} // verus!
