//! Laws of claiming at startup, of pollution and of forgetting, told in the fields of threads, jobs and
//! outputs.

use super::history::is_canonical;
use super::history::records_mode;
use super::job_laws::running_elsewhere;
use super::startup::claim_views;
use super::startup::claims_at_startup;
use super::startup::claims_from;
use super::startup::is_polluted_version;
use super::startup::metadata_of;
use super::startup::startup_condition;
use super::startup::LatestUpdate;
use super::startup::StartupThreads;
use super::HistoryItem;
use super::MemoryJobStatus;
use super::MemoryStore;
use super::MemoryStoreError;
use super::MemoryStoreView;
use super::Stage1JobClaim;
use super::Stage1StartupClaimParams;
use super::ThreadProjection;
use crate::outside::uuid_text;
use crate::table::is_listing;
use crate::table::row_selected;
use crate::table::Ranking;
use crate::table::Table;
use crate::text::text_views;
use crate::thread_id::ThreadId;
use crate::threads::ThreadHistoryMode;
use crate::threads::ThreadMetadata;
use crate::threads::ThreadRow;
use crate::time::whole_seconds;
use vstd::prelude::*;

verus! {

/// A job may be claimed for the thread at startup: it is not archived, has a preview, comes from an
/// allowed source, is not the current one, has memory enabled with no pollution since, and was last
/// updated no more than the given days and no less than the given hours ago.
pub open spec fn may_be_claimed(thread: ThreadRow, current: ThreadId, params: Stage1StartupClaimParams, now_ms: i64) -> bool {
    &&& thread.metadata.archived_at is None
    &&& thread.metadata.preview is Some
    &&& thread.metadata.preview->0@.len() > 0
    &&& params.allowed_sources@.len() == 0 || exists|k: int| 0 <= k < params.allowed_sources@.len() && #[trigger] params.allowed_sources@[k]@ == thread.metadata.source@
    &&& thread.metadata.id != current
    &&& thread.memory_mode@ == "enabled"@
    &&& thread.polluted_at_stream_version is None || thread.polluted_at_stream_version->0 <= thread.memory_mode_ordinal
    &&& now_ms - thread.metadata.updated_at <= params.max_age_days * 24 * 60 * 60 * 1000
    &&& now_ms - thread.metadata.updated_at >= params.min_rollout_idle_hours * 60 * 60 * 1000
}

/// Days and hours that can be counted in seconds.
pub open spec fn has_countable_spans(params: Stage1StartupClaimParams) -> bool {
    0 <= params.max_age_days <= 100_000_000_000 && 0 <= params.min_rollout_idle_hours <= 2_000_000_000_000
}

proof fn lemma_startup_condition(thread: ThreadRow, current: ThreadId, params: Stage1StartupClaimParams, now_ms: i64)
    requires
        has_countable_spans(params),
    ensures
        crate::table::Condition::<ThreadRow>::holds(&startup_condition(current, params, now_ms), thread) <==> may_be_claimed(thread, current, params, now_ms),
{
    let oldest = now_ms - super::startup::span_seconds(params.max_age_days, 86_400) * 1000;
    let newest = now_ms - super::startup::span_seconds(params.min_rollout_idle_hours, 3_600) * 1000;
    assert(oldest as i128 == oldest);
    assert(newest as i128 == newest);
}

/// The candidates at startup are the threads that may be claimed, the last updated first, no more than are
/// to be looked at. One that is left out was not updated after any of them.
pub proof fn law_candidates_are_the_last_updated(
    threads: &Table<ThreadRow>,
    current: ThreadId,
    params: &Stage1StartupClaimParams<'_>,
    now_ms: i64,
    candidates: Vec<ThreadMetadata>,
)
    requires
        call_ensures(MemoryStore::startup_candidates, (threads, current, params, now_ms), candidates),
        has_countable_spans(*params),
        forall|id: ThreadId| #[trigger] threads@.contains_key(id) ==> threads@[id].metadata.id == id,
    ensures
        candidates@.len() <= params.scan_limit,
        forall|i: int|
            #![trigger candidates@[i]]
            0 <= i < candidates@.len() ==> {
                &&& threads@.contains_key(candidates@[i].id)
                &&& threads@[candidates@[i].id].metadata == candidates@[i]
                &&& may_be_claimed(threads@[candidates@[i].id], current, *params, now_ms)
            },
        forall|i: int, j: int|
            #![trigger candidates@[i], candidates@[j]]
            0 <= i < j < candidates@.len() ==> candidates@[i].updated_at >= candidates@[j].updated_at && candidates@[i].id != candidates@[j].id,
        forall|id: ThreadId| #[trigger]
            threads@.contains_key(id) && may_be_claimed(threads@[id], current, *params, now_ms) ==> {
                ||| exists|i: int| 0 <= i < candidates@.len() && (#[trigger] candidates@[i]).id == id
                ||| candidates@.len() == params.scan_limit && forall|i: int|
                    0 <= i < candidates@.len() ==> (#[trigger] candidates@[i]).updated_at >= threads@[id].metadata.updated_at
            },
{
    let condition = startup_condition(current, *params, now_ms);
    let rows = choose|rows: Seq<ThreadRow>| {
        &&& #[trigger] is_listing::<ThreadRow, StartupThreads, LatestUpdate>(threads@, condition, LatestUpdate {  }, params.scan_limit as nat, rows)
        &&& candidates@ == metadata_of(rows)
    };
    assert forall|i: int| #![trigger candidates@[i]] 0 <= i < candidates@.len() implies {
        &&& threads@.contains_key(candidates@[i].id)
        &&& threads@[candidates@[i].id].metadata == candidates@[i]
        &&& may_be_claimed(threads@[candidates@[i].id], current, *params, now_ms)
    } by {
        assert(row_selected::<ThreadRow, StartupThreads>(threads@, condition, rows[i]));
        lemma_startup_condition(rows[i], current, *params, now_ms);
    }
    assert forall|i: int, j: int| #![trigger candidates@[i], candidates@[j]] 0 <= i < j < candidates@.len() implies candidates@[i].updated_at >= candidates@[j].updated_at
        && candidates@[i].id != candidates@[j].id by {
        assert(!Ranking::<ThreadRow>::before(&LatestUpdate {  }, rows[j], rows[i]));
        assert(<ThreadRow as crate::table::Row>::key_of(rows[i]) != <ThreadRow as crate::table::Row>::key_of(rows[j]));
    }
    assert forall|id: ThreadId| #[trigger] threads@.contains_key(id) && may_be_claimed(threads@[id], current, *params, now_ms) implies {
        ||| exists|i: int| 0 <= i < candidates@.len() && (#[trigger] candidates@[i]).id == id
        ||| candidates@.len() == params.scan_limit && forall|i: int|
            0 <= i < candidates@.len() ==> (#[trigger] candidates@[i]).updated_at >= threads@[id].metadata.updated_at
    } by {
        let row = threads@[id];
        lemma_startup_condition(row, current, *params, now_ms);
        assert(row_selected::<ThreadRow, StartupThreads>(threads@, condition, row));
        if rows.contains(row) {
            let i = choose|i: int| 0 <= i < rows.len() && rows[i] == row;
            assert(candidates@[i].id == id);
        } else {
            assert forall|i: int| 0 <= i < candidates@.len() implies (#[trigger] candidates@[i]).updated_at >= row.metadata.updated_at by {
                assert(!Ranking::<ThreadRow>::before(&LatestUpdate {  }, row, rows[i]));
            }
        }
    }
}

/// No two threads have the same identifier.
pub open spec fn have_distinct_ids(threads: Seq<ThreadMetadata>) -> bool {
    forall|i: int, j: int| #![trigger threads[i], threads[j]] 0 <= i < j < threads.len() ==> threads[i].id != threads[j].id
}

/// The thread is one of the given ones.
pub open spec fn is_one_of(thread_id: ThreadId, threads: Seq<ThreadMetadata>) -> bool {
    exists|i: int| 0 <= i < threads.len() && (#[trigger] threads[i]).id == thread_id
}

proof fn lemma_claims(
    state: MemoryStoreView,
    worker_id: ThreadId,
    candidates: Seq<ThreadMetadata>,
    tokens: Seq<Seq<char>>,
    lease_seconds: i64,
    max_claimed: nat,
    now: i64,
    claimed: nat,
)
    requires
        have_distinct_ids(candidates),
        claimed <= max_claimed,
    ensures
        ({
            let (after, claims) = claims_from(state, worker_id, candidates, tokens, lease_seconds, max_claimed, now, claimed);
            &&& claims.len() + claimed <= max_claimed
            &&& after.outputs == state.outputs
            &&& after.global_job == state.global_job
            &&& after.generations == state.generations
            &&& forall|i: int|
                #![trigger claims[i]]
                0 <= i < claims.len() ==> {
                    let job = after.jobs[claims[i].0.id].job;
                    &&& candidates.contains(claims[i].0)
                    &&& after.jobs.contains_key(claims[i].0.id)
                    &&& job.status == MemoryJobStatus::Running
                    &&& job.ownership_token == Some(claims[i].1)
                    &&& job.worker_id == Some(worker_id)
                    &&& job.started_at == Some(now)
                    &&& job.input_watermark == Some(whole_seconds(claims[i].0.updated_at))
                }
            &&& forall|thread_id: ThreadId| #[trigger]
                state.jobs.contains_key(thread_id) && !is_one_of(thread_id, candidates) ==> after.jobs.contains_key(thread_id) && after.jobs[thread_id]
                    == state.jobs[thread_id]
            &&& forall|thread_id: ThreadId| #[trigger] after.jobs.contains_key(thread_id) && !state.jobs.contains_key(thread_id) ==> is_one_of(thread_id, candidates)
        }),
    decreases candidates.len(),
{
    if candidates.len() > 0 && claimed < max_claimed {
        let thread = candidates[0];
        let rest = candidates.drop_first();
        assert forall|i: int, j: int| #![trigger rest[i], rest[j]] 0 <= i < j < rest.len() implies rest[i].id != rest[j].id by {
            assert(rest[i] == candidates[i + 1] && rest[j] == candidates[j + 1]);
        }
        assert(!is_one_of(thread.id, rest)) by {
            if is_one_of(thread.id, rest) {
                let i = choose|i: int| 0 <= i < rest.len() && (#[trigger] rest[i]).id == thread.id;
                assert(candidates[0].id != candidates[i + 1].id);
            }
        }
        assert forall|thread_id: ThreadId| is_one_of(thread_id, rest) implies is_one_of(thread_id, candidates) by {
            let i = choose|i: int| 0 <= i < rest.len() && (#[trigger] rest[i]).id == thread_id;
            assert(candidates[i + 1].id == thread_id);
        }
        assert(is_one_of(thread.id, candidates)) by {
            assert(candidates[0].id == thread.id);
        }
        assert forall|candidate: ThreadMetadata| #[trigger] rest.contains(candidate) implies candidates.contains(candidate) by {
            let i = choose|i: int| 0 <= i < rest.len() && rest[i] == candidate;
            assert(candidates[i + 1] == candidate);
        }
        assert(candidates.contains(thread));
        let (after, decision) = super::stage1::claiming(state, thread.id, worker_id, tokens[0], whole_seconds(thread.updated_at), lease_seconds, max_claimed, now);
        if decision == super::stage1::Stage1Decision::Claim {
            lemma_claims(after, worker_id, rest, tokens.drop_first(), lease_seconds, max_claimed, now, claimed + 1);
            let tail = claims_from(after, worker_id, rest, tokens.drop_first(), lease_seconds, max_claimed, now, claimed + 1);
            let claims = seq![(thread, tokens[0])] + tail.1;
            assert(after.jobs.contains_key(thread.id));
            assert forall|i: int| #![trigger claims[i]] 0 <= i < claims.len() implies {
                let job = tail.0.jobs[claims[i].0.id].job;
                &&& candidates.contains(claims[i].0)
                &&& tail.0.jobs.contains_key(claims[i].0.id)
                &&& job.status == MemoryJobStatus::Running
                &&& job.ownership_token == Some(claims[i].1)
                &&& job.worker_id == Some(worker_id)
                &&& job.started_at == Some(now)
                &&& job.input_watermark == Some(whole_seconds(claims[i].0.updated_at))
            } by {
                if i > 0 {
                    assert(claims[i] == tail.1[i - 1]);
                }
            }
            assert forall|thread_id: ThreadId| #[trigger] state.jobs.contains_key(thread_id) && !is_one_of(thread_id, candidates) implies tail.0.jobs.contains_key(thread_id)
                && tail.0.jobs[thread_id] == state.jobs[thread_id] by {
                assert(after.jobs.contains_key(thread_id));
            }
        } else {
            lemma_claims(after, worker_id, rest, tokens.drop_first(), lease_seconds, max_claimed, now, claimed);
        }
    }
}

/// Each job claimed at startup is that of a thread that may be claimed. It runs for the current thread
/// under the token of the claim, up to the second in which the thread was last updated. No more are
/// claimed than were asked for, and no other job changes.
pub proof fn law_startup_claims_run_for_the_current_thread(
    store: &mut MemoryStore,
    threads: &Table<ThreadRow>,
    current: ThreadId,
    params: Stage1StartupClaimParams<'_>,
    now_ms: i64,
    claims: Vec<Stage1JobClaim>,
)
    requires
        call_ensures(
            MemoryStore::claim_stage1_jobs_for_startup,
            (store, threads, current, params, now_ms),
            Ok::<Vec<Stage1JobClaim>, MemoryStoreError>(claims),
        ),
        has_countable_spans(params),
        forall|id: ThreadId| #[trigger] threads@.contains_key(id) ==> threads@[id].metadata.id == id,
    ensures
        claims@.len() <= params.max_claimed,
        final(store)@.outputs == old(store)@.outputs,
        final(store)@.global_job == old(store)@.global_job,
        final(store)@.generations == old(store)@.generations,
        forall|i: int|
            #![trigger claims@[i]]
            0 <= i < claims@.len() ==> {
                let thread = claims@[i].thread;
                let job = final(store)@.jobs[thread.id].job;
                &&& threads@.contains_key(thread.id)
                &&& threads@[thread.id].metadata == thread
                &&& may_be_claimed(threads@[thread.id], current, params, now_ms)
                &&& final(store)@.jobs.contains_key(thread.id)
                &&& job.status == MemoryJobStatus::Running
                &&& job.ownership_token == Some(claims@[i].ownership_token@)
                &&& job.worker_id == Some(current)
                &&& job.started_at is Some && job.started_at->0 == now_ms as int / 1000
                &&& job.input_watermark is Some && job.input_watermark->0 == thread.updated_at as int / 1000
            },
        forall|id: ThreadId| #[trigger]
            old(store)@.jobs.contains_key(id) && !(threads@.contains_key(id) && may_be_claimed(threads@[id], current, params, now_ms)) ==> final(store)@.jobs.contains_key(id)
                && final(store)@.jobs[id] == old(store)@.jobs[id],
{
    lemma_startup_claims(old(store)@, threads@, current, params, now_ms, final(store)@, claims);
}

pub(crate) proof fn lemma_startup_claims(
    before: MemoryStoreView,
    threads: Map<ThreadId, ThreadRow>,
    current: ThreadId,
    params: Stage1StartupClaimParams<'_>,
    now_ms: i64,
    after: MemoryStoreView,
    claims: Vec<Stage1JobClaim>,
)
    requires
        claims_at_startup(before, threads, current, params, now_ms, after, Ok::<Vec<Stage1JobClaim>, MemoryStoreError>(claims)),
        has_countable_spans(params),
        forall|id: ThreadId| #[trigger] threads.contains_key(id) ==> threads[id].metadata.id == id,
    ensures
        claims@.len() <= params.max_claimed,
        after.outputs == before.outputs,
        after.global_job == before.global_job,
        after.generations == before.generations,
        forall|i: int|
            #![trigger claims@[i]]
            0 <= i < claims@.len() ==> {
                let thread = claims@[i].thread;
                let job = after.jobs[thread.id].job;
                &&& threads.contains_key(thread.id)
                &&& threads[thread.id].metadata == thread
                &&& may_be_claimed(threads[thread.id], current, params, now_ms)
                &&& after.jobs.contains_key(thread.id)
                &&& job.status == MemoryJobStatus::Running
                &&& job.ownership_token == Some(claims@[i].ownership_token@)
                &&& job.worker_id == Some(current)
                &&& job.started_at is Some && job.started_at->0 == now_ms as int / 1000
                &&& job.input_watermark is Some && job.input_watermark->0 == thread.updated_at as int / 1000
            },
        forall|id: ThreadId| #[trigger]
            before.jobs.contains_key(id) && !(threads.contains_key(id) && may_be_claimed(threads[id], current, params, now_ms)) ==> after.jobs.contains_key(id)
                && after.jobs[id] == before.jobs[id],
{
    if params.scan_limit > 0 && params.max_claimed > 0 && !before.closed {
        let condition = startup_condition(current, params, now_ms);
        let (rows, tokens) = choose|rows: Seq<ThreadRow>, tokens: Seq<Seq<char>>| {
            &&& #[trigger] is_listing::<ThreadRow, StartupThreads, LatestUpdate>(threads, condition, LatestUpdate {  }, params.scan_limit as nat, rows)
            &&& (after, claim_views(claims@)) == #[trigger] claims_from(
                before,
                current,
                metadata_of(rows),
                tokens,
                params.lease_seconds,
                params.max_claimed as nat,
                whole_seconds(now_ms),
                0,
            )
        };
        let candidates = metadata_of(rows);
        assert forall|i: int, j: int| #![trigger candidates[i], candidates[j]] 0 <= i < j < candidates.len() implies candidates[i].id != candidates[j].id by {
            assert(<ThreadRow as crate::table::Row>::key_of(rows[i]) != <ThreadRow as crate::table::Row>::key_of(rows[j]));
        }
        assert forall|i: int| 0 <= i < candidates.len() implies threads.contains_key((#[trigger] candidates[i]).id) && threads[candidates[i].id].metadata == candidates[i]
            && may_be_claimed(threads[candidates[i].id], current, params, now_ms) by {
            assert(row_selected::<ThreadRow, StartupThreads>(threads, condition, rows[i]));
            lemma_startup_condition(rows[i], current, params, now_ms);
        }
        lemma_claims(before, current, candidates, tokens, params.lease_seconds, params.max_claimed as nat, whole_seconds(now_ms), 0);
        let views = claim_views(claims@);
        assert forall|i: int| #![trigger claims@[i]] 0 <= i < claims@.len() implies {
            let thread = claims@[i].thread;
            let job = after.jobs[thread.id].job;
            &&& threads.contains_key(thread.id)
            &&& threads[thread.id].metadata == thread
            &&& may_be_claimed(threads[thread.id], current, params, now_ms)
            &&& after.jobs.contains_key(thread.id)
            &&& job.status == MemoryJobStatus::Running
            &&& job.ownership_token == Some(claims@[i].ownership_token@)
            &&& job.worker_id == Some(current)
            &&& job.started_at is Some && job.started_at->0 == now_ms as int / 1000
            &&& job.input_watermark is Some && job.input_watermark->0 == thread.updated_at as int / 1000
        } by {
            assert(views[i] == (claims@[i].thread, claims@[i].ownership_token@));
            let k = choose|k: int| 0 <= k < candidates.len() && candidates[k] == claims@[i].thread;
            assert(threads.contains_key(candidates[k].id));
        }
        assert forall|id: ThreadId| #[trigger]
            before.jobs.contains_key(id) && !(threads.contains_key(id) && may_be_claimed(threads[id], current, params, now_ms)) implies after.jobs.contains_key(id) && after.jobs[id] == before.jobs[id] by {
            if is_one_of(id, candidates) {
                let k = choose|k: int| 0 <= k < candidates.len() && (#[trigger] candidates[k]).id == id;
                assert(threads.contains_key(candidates[k].id));
            }
        }
    }
}

/// Detected pollution ends the use of a thread that was not polluted before: the local database says so in
/// its mode, the shared one in the length that its history had. A consolidation is asked for where the last
/// one rests on the output of the thread. No other thread changes, and no output does.
pub proof fn law_pollution_is_recorded(
    store: &mut MemoryStore,
    threads: &mut Table<ThreadRow>,
    thread_id: ThreadId,
    now: i64,
    result: Result<bool, MemoryStoreError>,
)
    requires
        call_ensures(MemoryStore::mark_thread_memory_mode_polluted, (store, threads, thread_id, now), result),
    ensures
        result is Err ==> final(store)@ == old(store)@ && final(threads)@ == old(threads)@,
        old(store)@.closed ==> result is Err,
        !old(store)@.closed && !old(threads)@.contains_key(thread_id) ==> result == Ok::<bool, MemoryStoreError>(false) && final(store)@ == old(store)@ && final(threads)@
            == old(threads)@,
        result is Ok && old(threads)@.contains_key(thread_id) ==> {
            let before = old(threads)@[thread_id];
            let after = final(threads)@[thread_id];
            let polluted = before.memory_mode@ == "polluted"@ || before.polluted_at_stream_version is Some && before.polluted_at_stream_version->0 > before.memory_mode_ordinal;
            &&& result->Ok_0 == !polluted
            &&& polluted ==> final(threads)@ == old(threads)@
            &&& !polluted ==> {
                &&& final(threads)@.dom() == old(threads)@.dom()
                &&& after.metadata == before.metadata
                &&& after.memory_mode_ordinal == before.memory_mode_ordinal
                &&& after.stream_version == before.stream_version
                &&& old(store)@.backend is Sqlite ==> after.memory_mode@ == "polluted"@ && after.polluted_at_stream_version == before.polluted_at_stream_version
                &&& old(store)@.backend is Postgresql ==> after.memory_mode == before.memory_mode && after.polluted_at_stream_version == Some(before.stream_version)
            }
        },
        forall|other: ThreadId| other != thread_id && #[trigger] old(threads)@.contains_key(other) ==> final(threads)@.contains_key(other) && final(threads)@[other] == old(threads)@[other],
        final(store)@.outputs == old(store)@.outputs,
        final(store)@.jobs == old(store)@.jobs,
        result is Ok && old(threads)@.contains_key(thread_id) && old(store)@.outputs.contains_key(thread_id) && old(store)@.outputs[thread_id].selected_for_phase2 ==> {
            &&& final(store)@.global_job is Some
            &&& final(store)@.global_job->0.input_watermark is Some
            &&& final(store)@.global_job->0.input_watermark->0 >= now
            &&& old(store)@.global_job is Some && old(store)@.global_job->0.input_watermark is Some ==> final(store)@.global_job->0.input_watermark->0
                > old(store)@.global_job->0.input_watermark->0
        },
        !(old(store)@.outputs.contains_key(thread_id) && old(store)@.outputs[thread_id].selected_for_phase2) ==> final(store)@ == old(store)@,
{
    if result is Ok && old(threads)@.contains_key(thread_id) {
        let before = old(threads)@[thread_id];
        if super::startup::is_pollution_news(before) {
            let row = choose|row: ThreadRow| #[trigger] is_polluted_version(old(store)@.backend, before, row) && final(threads)@ == old(threads)@.insert(thread_id, row);
            assert(final(threads)@.dom() =~= old(threads)@.dom());
        }
    }
}

/// Forgetting a thread takes its job and its output away and no others. A consolidation is asked for where
/// the last one rests on that output.
pub proof fn law_forgotten_thread_leaves_no_memory(store: &mut MemoryStore, thread_id: ThreadId, now: i64, result: Result<(), MemoryStoreError>)
    requires
        call_ensures(MemoryStore::delete_thread_memory, (store, thread_id, now), result),
    ensures
        result is Err ==> final(store)@ == old(store)@,
        old(store)@.closed ==> result is Err,
        !old(store)@.closed && !(old(store)@.outputs.contains_key(thread_id) && old(store)@.outputs[thread_id].selected_for_phase2) ==> result is Ok
            && final(store)@.global_job == old(store)@.global_job,
        result is Ok ==> {
            &&& !final(store)@.jobs.contains_key(thread_id)
            &&& !final(store)@.outputs.contains_key(thread_id)
            &&& forall|other: ThreadId| other != thread_id && #[trigger] old(store)@.jobs.contains_key(other) ==> final(store)@.jobs.contains_key(other)
                && final(store)@.jobs[other] == old(store)@.jobs[other]
            &&& forall|other: ThreadId| other != thread_id && #[trigger] old(store)@.outputs.contains_key(other) ==> final(store)@.outputs.contains_key(other)
                && final(store)@.outputs[other] == old(store)@.outputs[other]
            &&& final(store)@.generations == old(store)@.generations
        },
        result is Ok && old(store)@.outputs.contains_key(thread_id) && old(store)@.outputs[thread_id].selected_for_phase2 ==> {
            &&& final(store)@.global_job is Some
            &&& final(store)@.global_job->0.input_watermark is Some
            &&& final(store)@.global_job->0.input_watermark->0 >= now
        },
{
}

/// A reset leaves no job, no output and no generation.
pub proof fn law_reset_leaves_nothing(store: &mut MemoryStore, result: Result<(), MemoryStoreError>)
    requires
        call_ensures(MemoryStore::clear_memory_data, (store,), result),
    ensures
        result is Err <==> old(store)@.closed,
        result is Err ==> final(store)@ == old(store)@,
        result is Ok ==> {
            &&& forall|thread_id: ThreadId| !(#[trigger] final(store)@.jobs.contains_key(thread_id))
            &&& forall|thread_id: ThreadId| !(#[trigger] final(store)@.outputs.contains_key(thread_id))
            &&& final(store)@.global_job is None
            &&& final(store)@.generations.len() == 0
            &&& final(store)@.backend == old(store)@.backend
        },
{
}

/// The recorded memory mode is that of the last record which names the thread, at its position. Without
/// one, memory is enabled.
pub proof fn law_last_record_decides_the_mode(items: &[HistoryItem], thread_id: ThreadId, recorded: (String, i64))
    requires
        call_ensures(super::canonical_memory_mode, (items, thread_id), recorded),
    ensures
        ({
            let records = |i: int|
                {
                    &&& 0 <= i < items@.len()
                    &&& items@[i].item_type@ == "session_meta"@
                    &&& items@[i].payload_id is Some
                    &&& items@[i].payload_id->0@ == uuid_text(thread_id.value)
                    &&& items@[i].memory_mode is Some
                };
            &&& (exists|i: int| #[trigger] records(i)) ==> exists|i: int| #[trigger] records(i) && recorded.0@ == items@[i].memory_mode->0@ && recorded.1 == items@[i].ordinal
            &&& forall|i: int| #[trigger] records(i) ==> items@[i].ordinal <= recorded.1
            &&& (forall|i: int| !#[trigger] records(i)) ==> recorded.0@ == "enabled"@ && recorded.1 == -1
        }),
{
    let records = |i: int|
        {
            &&& 0 <= i < items@.len()
            &&& items@[i].item_type@ == "session_meta"@
            &&& items@[i].payload_id is Some
            &&& items@[i].payload_id->0@ == uuid_text(thread_id.value)
            &&& items@[i].memory_mode is Some
        };
    if exists|i: int| #[trigger] is_canonical(items@, thread_id, i) {
        let i = choose|i: int| #[trigger] is_canonical(items@, thread_id, i) && recorded.0@ == items@[i].memory_mode->0@ && recorded.1 == items@[i].ordinal;
        assert(records(i));
        assert forall|j: int| #[trigger] records(j) implies items@[j].ordinal <= recorded.1 by {
            assert(records_mode(items@[j], thread_id));
        }
    } else if exists|i: int| #[trigger] records(i) {
        let i = choose|i: int| #[trigger] records(i);
        lemma_some_canonical(items@, thread_id, items@.len() as int, i);
    }
}

proof fn lemma_some_canonical(items: Seq<HistoryItem>, thread_id: ThreadId, n: int, i: int) -> (last: int)
    requires
        0 <= i < n <= items.len(),
        records_mode(items[i], thread_id),
    ensures
        0 <= last < n,
        records_mode(items[last], thread_id),
        forall|j: int| 0 <= j < n && records_mode(#[trigger] items[j], thread_id) ==> items[j].ordinal <= items[last].ordinal,
        n == items.len() ==> is_canonical(items, thread_id, last),
    decreases n,
{
    if forall|j: int| 0 <= j < n - 1 ==> !records_mode(#[trigger] items[j], thread_id) {
        i
    } else {
        let k = choose|k: int| 0 <= k < n - 1 && records_mode(#[trigger] items[k], thread_id);
        let before = lemma_some_canonical(items, thread_id, n - 1, k);
        if records_mode(items[n - 1], thread_id) && items[n - 1].ordinal > items[before].ordinal {
            n - 1
        } else {
            before
        }
    }
}

/// A thread that the shared database knows is told as it is known. A legacy thread shows its name as its
/// title, every other one its preview.
pub proof fn law_projection_is_told_as_known(projection: ThreadProjection, metadata: ThreadMetadata)
    requires
        call_ensures(super::thread_metadata_from_projection, (projection,), metadata),
    ensures
        metadata.id == projection.thread_id,
        metadata.created_at == projection.created_at,
        metadata.updated_at == projection.updated_at,
        metadata.recency_at == projection.recency_at,
        metadata.archived_at == projection.archived_at,
        metadata.source == projection.source,
        metadata.cwd == projection.cwd,
        metadata.model_provider == projection.model_provider,
        metadata.git_branch == projection.git_branch,
        metadata.git_sha == projection.git_commit_hash,
        metadata.git_origin_url == projection.git_repository_url,
        metadata.preview == Some(projection.preview),
        metadata.is_pinned == projection.is_pinned,
        metadata.first_user_message == projection.first_user_message,
        projection.rollout_path is Some ==> metadata.rollout_path@ == projection.rollout_path->0@,
        projection.rollout_path is None ==> metadata.rollout_path@.len() == 0,
        projection.history_mode == ThreadHistoryMode::Legacy && projection.name is Some ==> metadata.title@ == projection.name->0@ && metadata.name is None,
        projection.history_mode == ThreadHistoryMode::Legacy && projection.name is None ==> metadata.title@ == projection.preview@,
        projection.history_mode == ThreadHistoryMode::Paginated ==> metadata.title@ == projection.preview@ && metadata.name == projection.name,
        projection.total_tokens is Some && projection.total_tokens->0 >= 0 ==> metadata.tokens_used == projection.total_tokens->0,
        projection.total_tokens is None || projection.total_tokens->0 < 0 ==> metadata.tokens_used == 0,
{
}

/// Candidates are claimed in their order until enough are: each claimed job runs for the worker under the token
/// of the claim, and no other job changes.
pub proof fn law_candidates_are_claimed(
    store: &mut MemoryStore,
    worker_id: ThreadId,
    candidates: Vec<ThreadMetadata>,
    tokens: Vec<String>,
    lease_seconds: i64,
    max_claimed: usize,
    now: i64,
    claims: Vec<Stage1JobClaim>,
)
    requires
        call_ensures(
            MemoryStore::claim_candidates,
            (store, worker_id, candidates, tokens, lease_seconds, max_claimed, now),
            Ok::<Vec<Stage1JobClaim>, MemoryStoreError>(claims),
        ),
        have_distinct_ids(candidates@),
    ensures
        claims@.len() <= max_claimed,
        final(store)@.outputs == old(store)@.outputs,
        final(store)@.global_job == old(store)@.global_job,
        forall|i: int|
            #![trigger claims@[i]]
            0 <= i < claims@.len() ==> {
                let job = final(store)@.jobs[claims@[i].thread.id].job;
                &&& candidates@.contains(claims@[i].thread)
                &&& final(store)@.jobs.contains_key(claims@[i].thread.id)
                &&& job.status == MemoryJobStatus::Running
                &&& job.ownership_token == Some(claims@[i].ownership_token@)
                &&& job.worker_id == Some(worker_id)
                &&& job.started_at == Some(now)
                &&& job.input_watermark is Some && job.input_watermark->0 == claims@[i].thread.updated_at as int / 1000
            },
        forall|id: ThreadId| #[trigger]
            old(store)@.jobs.contains_key(id) && !is_one_of(id, candidates@) ==> final(store)@.jobs.contains_key(id) && final(store)@.jobs[id] == old(store)@.jobs[id],
{
    lemma_claims(old(store)@, worker_id, candidates@, text_views(tokens@), lease_seconds, max_claimed as nat, now, 0);
    let views = claim_views(claims@);
    assert forall|i: int| #![trigger claims@[i]] 0 <= i < claims@.len() implies views[i] == (claims@[i].thread, claims@[i].ownership_token@) by {}
}

/// Where nothing was claimed or extracted before, all candidates are claimed in their order, each under its
/// token, if no more are given than may be claimed.
pub proof fn law_fresh_candidates_are_all_claimed(
    store: &mut MemoryStore,
    worker_id: ThreadId,
    candidates: Vec<ThreadMetadata>,
    tokens: Vec<String>,
    lease_seconds: i64,
    max_claimed: usize,
    now: i64,
    claims: Vec<Stage1JobClaim>,
)
    requires
        call_ensures(
            MemoryStore::claim_candidates,
            (store, worker_id, candidates, tokens, lease_seconds, max_claimed, now),
            Ok::<Vec<Stage1JobClaim>, MemoryStoreError>(claims),
        ),
        have_distinct_ids(candidates@),
        tokens@.len() == candidates@.len(),
        candidates@.len() <= max_claimed,
        forall|id: ThreadId| !(#[trigger] old(store)@.jobs.contains_key(id)),
        forall|id: ThreadId| !(#[trigger] old(store)@.outputs.contains_key(id)),
    ensures
        claims@.len() == candidates@.len(),
        forall|i: int| #![trigger claims@[i]] 0 <= i < claims@.len() ==> claims@[i].thread == candidates@[i] && claims@[i].ownership_token@ == tokens@[i]@,
{
    let none = Seq::<ThreadId>::empty();
    let names = text_views(tokens@);
    assert(old(store)@.jobs.dom() =~= Set::empty());
    lemma_all_claimed(old(store)@, worker_id, candidates@, names, lease_seconds, max_claimed as nat, now, none);
    let views = claim_views(claims@);
    assert(views.len() == claims@.len());
    assert forall|i: int| #![trigger claims@[i]] 0 <= i < claims@.len() implies claims@[i].thread == candidates@[i] && claims@[i].ownership_token@ == tokens@[i]@ by {
        assert(views[i] == (claims@[i].thread, claims@[i].ownership_token@));
        assert(views[i] == (candidates@[i], names[i]));
    }
}

proof fn lemma_all_claimed(
    state: MemoryStoreView,
    worker_id: ThreadId,
    candidates: Seq<ThreadMetadata>,
    tokens: Seq<Seq<char>>,
    lease_seconds: i64,
    max_claimed: nat,
    now: i64,
    taken: Seq<ThreadId>,
)
    requires
        have_distinct_ids(candidates),
        tokens.len() == candidates.len(),
        taken.len() + candidates.len() <= max_claimed,
        state.jobs.dom().subset_of(taken.to_set()),
        forall|id: ThreadId| !(#[trigger] state.outputs.contains_key(id)),
        forall|i: int| 0 <= i < candidates.len() ==> !taken.contains((#[trigger] candidates[i]).id),
    ensures
        ({
            let claims = claims_from(state, worker_id, candidates, tokens, lease_seconds, max_claimed, now, taken.len()).1;
            &&& claims.len() == candidates.len()
            &&& forall|i: int| #![trigger claims[i]] 0 <= i < claims.len() ==> claims[i] == (candidates[i], tokens[i])
        }),
    decreases candidates.len(),
{
    if candidates.len() > 0 {
        let thread = candidates[0];
        let rest = candidates.drop_first();
        let names = tokens.drop_first();
        assert(!state.jobs.contains_key(thread.id)) by {
            if state.jobs.contains_key(thread.id) {
                assert(state.jobs.dom().contains(thread.id));
                assert(taken.to_set().contains(thread.id));
            }
        }
        let others = crate::table::selected::<super::Stage1Job, super::stage1::OtherLiveJobs>(
            state.jobs,
            super::stage1::OtherLiveJobs { thread_id: thread.id, now },
        ).dom();
        assert(others.subset_of(taken.to_set()));
        taken.lemma_cardinality_of_set();
        vstd::set_lib::lemma_len_subset(others, taken.to_set());
        let (after, decision) = super::stage1::claiming(state, thread.id, worker_id, tokens[0], whole_seconds(thread.updated_at), lease_seconds, max_claimed, now);
        assert(decision == super::stage1::Stage1Decision::Claim);
        let more = taken.push(thread.id);
        assert(after.jobs.dom().subset_of(more.to_set())) by {
            assert forall|id: ThreadId| after.jobs.dom().contains(id) implies more.to_set().contains(id) by {
                if id == thread.id {
                    assert(more[taken.len() as int] == id);
                } else {
                    assert(state.jobs.dom().contains(id));
                    assert(taken.to_set().contains(id));
                    let k = choose|k: int| 0 <= k < taken.len() && taken[k] == id;
                    assert(more[k] == id);
                }
            }
        }
        assert forall|i: int, j: int| #![trigger rest[i], rest[j]] 0 <= i < j < rest.len() implies rest[i].id != rest[j].id by {
            assert(rest[i] == candidates[i + 1] && rest[j] == candidates[j + 1]);
        }
        assert forall|i: int| 0 <= i < rest.len() implies !more.contains((#[trigger] rest[i]).id) by {
            assert(rest[i] == candidates[i + 1]);
            assert(candidates[0].id != candidates[i + 1].id);
            if more.contains(rest[i].id) {
                let k = choose|k: int| 0 <= k < more.len() && more[k] == rest[i].id;
                assert(taken[k] == rest[i].id);
                assert(taken.contains(candidates[i + 1].id));
            }
        }
        lemma_all_claimed(after, worker_id, rest, names, lease_seconds, max_claimed, now, more);
        let tail = claims_from(after, worker_id, rest, names, lease_seconds, max_claimed, now, more.len());
        let claims = seq![(thread, tokens[0])] + tail.1;
        assert(claims_from(state, worker_id, candidates, tokens, lease_seconds, max_claimed, now, taken.len()).1 == claims);
        assert forall|i: int| #![trigger claims[i]] 0 <= i < claims.len() implies claims[i] == (candidates[i], tokens[i]) by {
            if i > 0 {
                assert(claims[i] == tail.1[i - 1]);
                assert(rest[i - 1] == candidates[i] && names[i - 1] == tokens[i]);
            }
        }
    }
}

/// A candidate whose job may be claimed is claimed, whatever came of those before it, if their jobs could not be:
/// an output covers each of them.
pub proof fn law_covered_candidates_are_passed_over(
    store: &mut MemoryStore,
    worker_id: ThreadId,
    candidates: Vec<ThreadMetadata>,
    tokens: Vec<String>,
    lease_seconds: i64,
    max_claimed: usize,
    now: i64,
    claims: Vec<Stage1JobClaim>,
    k: int,
)
    requires
        call_ensures(
            MemoryStore::claim_candidates,
            (store, worker_id, candidates, tokens, lease_seconds, max_claimed, now),
            Ok::<Vec<Stage1JobClaim>, MemoryStoreError>(claims),
        ),
        tokens@.len() == candidates@.len(),
        0 <= k < candidates@.len(),
        forall|i: int|
            0 <= i < k ==> old(store)@.outputs.contains_key((#[trigger] candidates@[i]).id) && old(store)@.outputs[candidates@[i].id].source_updated_at
                >= candidates@[i].updated_at as int / 1000,
        !old(store)@.outputs.contains_key(candidates@[k].id),
        !old(store)@.jobs.contains_key(candidates@[k].id),
        old(store)@.keyed(),
        running_elsewhere(old(store)@, candidates@[k].id, now).len() < max_claimed,
    ensures
        claims@.len() > 0,
        claims@[0].thread == candidates@[k],
        claims@[0].ownership_token@ == tokens@[k]@,
{
    let names = text_views(tokens@);
    super::job_laws::lemma_running_elsewhere(old(store)@, candidates@[k].id, now);
    lemma_passed_over(old(store)@, worker_id, candidates@, names, lease_seconds, max_claimed as nat, now, k);
    let views = claim_views(claims@);
    assert(views.len() == claims@.len());
    assert(views[0] == (claims@[0].thread, claims@[0].ownership_token@));
    assert(names[k] == tokens@[k]@);
}

proof fn lemma_passed_over(
    state: MemoryStoreView,
    worker_id: ThreadId,
    candidates: Seq<ThreadMetadata>,
    tokens: Seq<Seq<char>>,
    lease_seconds: i64,
    max_claimed: nat,
    now: i64,
    k: int,
)
    requires
        tokens.len() == candidates.len(),
        0 <= k < candidates.len(),
        forall|i: int|
            0 <= i < k ==> state.outputs.contains_key((#[trigger] candidates[i]).id) && state.outputs[candidates[i].id].source_updated_at >= candidates[i].updated_at as int / 1000,
        !state.outputs.contains_key(candidates[k].id),
        !state.jobs.contains_key(candidates[k].id),
        super::stage1::other_live_jobs(state, candidates[k].id, now) < max_claimed,
    ensures
        ({
            let claims = claims_from(state, worker_id, candidates, tokens, lease_seconds, max_claimed, now, 0).1;
            &&& claims.len() > 0
            &&& claims[0] == (candidates[k], tokens[k])
        }),
    decreases k,
{
    let rest = candidates.drop_first();
    let names = tokens.drop_first();
    if k > 0 {
        assert(state.outputs.contains_key(candidates[0].id));
        assert forall|i: int| 0 <= i < k - 1 implies state.outputs.contains_key((#[trigger] rest[i]).id) && state.outputs[rest[i].id].source_updated_at >= rest[i].updated_at as int
            / 1000 by {
            assert(rest[i] == candidates[i + 1]);
        }
        assert(rest[k - 1] == candidates[k] && names[k - 1] == tokens[k]);
        lemma_passed_over(state, worker_id, rest, names, lease_seconds, max_claimed, now, k - 1);
    }
}

} // verus!
