//! Laws of the memory store: leases, watermarks, generations and resets.

use super::artifacts::is_imported;
use super::artifacts::preserving_imports;
use super::artifacts::publication;
use super::generation::same_members;
use super::job::earlier;
use super::job::later;
use super::outputs::completed_phase2;
use super::outputs::is_among;
use super::outputs::is_enabled;
use super::outputs::success_watermark;
use super::outputs::threads_of;
use super::outputs::LeastRecentlyUsed;
use super::outputs::StaleOutputs;
use super::outputs::Stage1OutputView;
use super::phase2::claiming_phase2;
use super::phase2::enqueued;
use super::phase2::failed_global;
use super::phase2::failing_phase2;
use super::phase2::global_job_of;
use super::phase2::owns_phase2;
use super::phase2::phase2_decision;
use super::phase2::renewing_phase2;
use super::phase2::watermark_of;
use super::phase2::Phase2Decision;
use super::phase2::PHASE2_SUCCESS_COOLDOWN_SECONDS;
use super::stage1::claimed_job;
use super::stage1::claiming;
use super::stage1::failing_stage1;
use super::stage1::job_decision;
use super::stage1::owns_stage1;
use super::stage1::renewing_stage1;
use super::stage1::stage1_decision;
use super::stage1::succeeding;
use super::stage1::succeeding_without_output;
use super::stage1::OtherLiveJobs;
use super::stage1::Stage1Decision;
use super::startup::claims_from;
use super::startup::is_polluted_version;
use super::MemoryArtifactView;
use super::MemoryJobStatus;
use super::MemoryJobView;
use super::MemoryStoreError;
use super::MemoryStoreView;
use super::Stage1Job;
use super::Stage1JobView;
use super::Stage1OutputRow;
use super::Stage1OutputRowView;
use crate::backend::RuntimeStateBackend;
use crate::sequences::lemma_concat_members;
use crate::sequences::lemma_filter_members;
use crate::table::is_listing;
use crate::table::row_selected;
use crate::table::selected;
use crate::thread_id::ThreadId;
use crate::threads::ThreadMetadata;
use crate::threads::ThreadRow;
use vstd::prelude::*;

verus! {

/// The threads whose job is live.
pub open spec fn live_threads(state: MemoryStoreView, now: i64) -> Set<ThreadId> {
    Set::new(|thread_id: ThreadId| state.jobs.contains_key(thread_id) && state.jobs[thread_id].job.is_live(now))
}

/// A claim never makes more jobs live than the caller allows.
pub proof fn law_live_jobs_are_bounded(
    state: MemoryStoreView,
    thread_id: ThreadId,
    worker_id: ThreadId,
    token: Seq<char>,
    source_updated_at: i64,
    lease_seconds: i64,
    max_running_jobs: nat,
    now: i64,
)
    requires
        state.keyed(),
        state.jobs.dom().finite(),
        claiming(state, thread_id, worker_id, token, source_updated_at, lease_seconds, max_running_jobs, now).1 == Stage1Decision::Claim,
    ensures
        live_threads(claiming(state, thread_id, worker_id, token, source_updated_at, lease_seconds, max_running_jobs, now).0, now).len() <= max_running_jobs,
{
    let after = claiming(state, thread_id, worker_id, token, source_updated_at, lease_seconds, max_running_jobs, now).0;
    let others = selected::<Stage1Job, OtherLiveJobs>(state.jobs, OtherLiveJobs { thread_id, now }).dom();
    assert(others.subset_of(state.jobs.dom()));
    vstd::set_lib::lemma_len_subset(others, state.jobs.dom());
    let bound = others.insert(thread_id);
    assert(live_threads(after, now).subset_of(bound)) by {
        assert forall|t: ThreadId| live_threads(after, now).contains(t) implies bound.contains(t) by {
            if t != thread_id {
                assert(state.jobs.contains_key(t));
                assert(state.jobs[t].thread_id == t);
            }
        }
    }
    vstd::set_lib::lemma_len_subset(live_threads(after, now), bound);
}

/// While the job of a thread is live, nobody can claim it.
pub proof fn law_live_job_is_not_claimed(
    state: MemoryStoreView,
    thread_id: ThreadId,
    worker_id: ThreadId,
    token: Seq<char>,
    source_updated_at: i64,
    lease_seconds: i64,
    max_running_jobs: nat,
    now: i64,
)
    requires
        state.job(thread_id) is Some,
        state.job(thread_id)->0.is_live(now),
    ensures
        ({
            let (after, decision) = claiming(state, thread_id, worker_id, token, source_updated_at, lease_seconds, max_running_jobs, now);
            after == state && (decision == Stage1Decision::Running || decision == Stage1Decision::UpToDate)
        }),
{
}

/// A claimed job is owned by the new token alone, until its lease expires.
pub proof fn law_claim_gives_ownership_to_one_token(
    state: MemoryStoreView,
    thread_id: ThreadId,
    worker_id: ThreadId,
    token: Seq<char>,
    source_updated_at: i64,
    lease_seconds: i64,
    max_running_jobs: nat,
    now: i64,
    other: Seq<char>,
    when: i64,
)
    requires
        claiming(state, thread_id, worker_id, token, source_updated_at, lease_seconds, max_running_jobs, now).1 == Stage1Decision::Claim,
    ensures
        ({
            let after = claiming(state, thread_id, worker_id, token, source_updated_at, lease_seconds, max_running_jobs, now).0;
            &&& owns_stage1(after, thread_id, token, when) <==> when < later(now, lease_seconds)
            &&& other != token ==> !owns_stage1(after, thread_id, other, when)
        }),
{
}

/// Whoever does not own the job of a thread, or no longer does, changes nothing.
pub proof fn law_stage1_is_fenced(
    state: MemoryStoreView,
    thread_id: ThreadId,
    token: Seq<char>,
    source_updated_at: i64,
    raw_memory: Seq<char>,
    rollout_summary: Seq<char>,
    rollout_slug: Option<Seq<char>>,
    reason: Seq<char>,
    seconds: i64,
    now: i64,
)
    requires
        !owns_stage1(state, thread_id, token, now),
    ensures
        succeeding(state, thread_id, token, source_updated_at, raw_memory, rollout_summary, rollout_slug, now) == (state, Ok::<bool, MemoryStoreError>(false)),
        succeeding_without_output(state, thread_id, token, now) == (state, Ok::<bool, MemoryStoreError>(false)),
        renewing_stage1(state, thread_id, token, seconds, now) == (state, Ok::<bool, MemoryStoreError>(false)),
        failing_stage1(state, thread_id, token, reason, seconds, now) == (state, Ok::<bool, MemoryStoreError>(false)),
{
}

/// A job that succeeded is not claimed again for the same source or an older one.
pub proof fn law_success_is_up_to_date(
    state: MemoryStoreView,
    thread_id: ThreadId,
    token: Seq<char>,
    source_updated_at: i64,
    raw_memory: Seq<char>,
    rollout_summary: Seq<char>,
    rollout_slug: Option<Seq<char>>,
    now: i64,
    later_source: i64,
    max_running_jobs: nat,
    when: i64,
)
    requires
        succeeding(state, thread_id, token, source_updated_at, raw_memory, rollout_summary, rollout_slug, now).1 == Ok::<bool, MemoryStoreError>(true),
        later_source <= source_updated_at,
    ensures
        stage1_decision(
            succeeding(state, thread_id, token, source_updated_at, raw_memory, rollout_summary, rollout_slug, now).0,
            thread_id,
            later_source,
            max_running_jobs,
            when,
        ) == Stage1Decision::UpToDate,
{
}

/// A job that succeeded without output is not claimed again for its input or an older one, and
/// the thread has no output left.
pub proof fn law_success_without_output_is_up_to_date(
    state: MemoryStoreView,
    thread_id: ThreadId,
    token: Seq<char>,
    now: i64,
    source_updated_at: i64,
    max_running_jobs: nat,
    when: i64,
)
    requires
        succeeding_without_output(state, thread_id, token, now).1 == Ok::<bool, MemoryStoreError>(true),
        source_updated_at <= state.job(thread_id)->0.input_watermark->0,
    ensures
        ({
            let after = succeeding_without_output(state, thread_id, token, now).0;
            &&& after.output(thread_id) is None
            &&& stage1_decision(after, thread_id, source_updated_at, max_running_jobs, when) == Stage1Decision::UpToDate
        }),
{
}

/// A source that advanced has all its attempts; each failure takes one, and claiming the same
/// source again gives none back. Without attempts left the source is not claimed.
pub proof fn law_each_failure_takes_an_attempt(
    job: MemoryJobView,
    worker_id: ThreadId,
    token: Seq<char>,
    source_updated_at: i64,
    lease_seconds: i64,
    reason: Seq<char>,
    retry_at: i64,
    now: i64,
)
    requires
        job.input_watermark is Some,
        job.retry_remaining > i64::MIN,
    ensures
        source_updated_at > job.input_watermark->0 ==> claimed_job(Some(job), worker_id, token, source_updated_at, lease_seconds, now).retry_remaining == 3,
        source_updated_at <= job.input_watermark->0 ==> claimed_job(Some(job), worker_id, token, source_updated_at, lease_seconds, now).retry_remaining == job.retry_remaining,
        job.failed(reason, retry_at, (job.retry_remaining - 1) as i64, now).retry_remaining == job.retry_remaining - 1,
        source_updated_at <= job.input_watermark->0 && job.retry_remaining <= 0 ==> job_decision(job, source_updated_at, now) != Stage1Decision::Claim,
{
}

/// Enqueueing always moves the watermark forward, at least to what is asked for, and leaves a
/// running job running.
pub proof fn law_enqueueing_moves_the_watermark(job: Option<MemoryJobView>, input_watermark: i64)
    requires
        enqueued(job, input_watermark) is Some,
    ensures
        ({
            let after = enqueued(job, input_watermark)->0;
            &&& watermark_of(after) >= input_watermark
            &&& job is Some ==> watermark_of(after) > watermark_of(job->0)
            &&& job is Some && job->0.status == MemoryJobStatus::Running ==> {
                &&& after.status == MemoryJobStatus::Running
                &&& after.ownership_token == job->0.ownership_token
                &&& after.lease_until == job->0.lease_until
            }
            &&& job is Some ==> after.last_success_watermark == job->0.last_success_watermark
            &&& after.retry_remaining >= 3
        }),
{
}

/// While the global job is live, nobody can claim it; a claim gives it to one token until the
/// lease expires, and reports the watermark that was enqueued.
pub proof fn law_global_job_has_one_owner(
    state: MemoryStoreView,
    worker_id: ThreadId,
    token: Seq<char>,
    lease_seconds: i64,
    now: i64,
    other: Seq<char>,
    when: i64,
)
    ensures
        ({
            let (after, decision) = claiming_phase2(state, worker_id, token, lease_seconds, now);
            &&& state.global_job is Some && state.global_job->0.is_live(now) ==> decision != Phase2Decision::Claim && after == state
            &&& decision == Phase2Decision::Claim ==> {
                &&& owns_phase2(after, token, when) <==> when < later(now, lease_seconds)
                &&& other != token ==> !owns_phase2(after, other, when)
                &&& watermark_of(after.global_job->0) == watermark_of(global_job_of(state))
            }
        }),
{
}

/// Whoever does not own the global job, or no longer does, changes nothing.
pub proof fn law_phase2_is_fenced(
    state: MemoryStoreView,
    token: Seq<char>,
    completed_watermark: i64,
    chosen: Seq<Stage1OutputView>,
    artifacts: Seq<MemoryArtifactView>,
    generation_id: Seq<char>,
    reason: Seq<char>,
    seconds: i64,
    now: i64,
    after: MemoryStoreView,
    result: Result<bool, MemoryStoreError>,
)
    requires
        !owns_phase2(state, token, now),
    ensures
        renewing_phase2(state, token, seconds, now) == (state, Ok::<bool, MemoryStoreError>(false)),
        failing_phase2(state, owns_phase2(state, token, now), reason, seconds, now) == (state, Ok::<bool, MemoryStoreError>(false)),
        super::outputs::succeeding_phase2(state, token, completed_watermark, chosen, now) == (state, false),
        publication(state, token, completed_watermark, chosen, artifacts, generation_id, now, after, result) ==> after == state && result == Ok::<bool, MemoryStoreError>(false),
{
}

/// A failed global job may be claimed as soon as its delay is over, however often it failed.
pub proof fn law_failed_consolidation_is_retried(
    job: MemoryJobView,
    reason: Seq<char>,
    retry_delay_seconds: i64,
    now: i64,
    when: i64,
)
    requires
        failed_global(job, reason, retry_delay_seconds, now) is Some,
    ensures
        phase2_decision(failed_global(job, reason, retry_delay_seconds, now)->0, when) == if when < later(now, retry_delay_seconds) {
            Phase2Decision::RetryUnavailable
        } else {
            Phase2Decision::Claim
        },
        failed_global(job, reason, retry_delay_seconds, now)->0.retry_remaining >= 0,
{
}

/// After a success the global job rests, even if something is enqueued meanwhile.
pub proof fn law_success_is_followed_by_a_rest(
    state: MemoryStoreView,
    worker_id: ThreadId,
    token: Seq<char>,
    lease_seconds: i64,
    claimed_at: i64,
    completed_watermark: i64,
    chosen: Seq<Stage1OutputView>,
    now: i64,
    input_watermark: i64,
    when: i64,
)
    requires
        claiming_phase2(state, worker_id, token, lease_seconds, claimed_at).1 == Phase2Decision::Claim,
        now > earlier(when, PHASE2_SUCCESS_COOLDOWN_SECONDS),
    ensures
        ({
            let claimed = claiming_phase2(state, worker_id, token, lease_seconds, claimed_at).0;
            let done = completed_phase2(claimed, completed_watermark, chosen, now).global_job->0;
            &&& phase2_decision(done, when) == Phase2Decision::Cooldown
            &&& enqueued(Some(done), input_watermark) is Some ==> phase2_decision(enqueued(Some(done), input_watermark)->0, when) == Phase2Decision::Cooldown
        }),
{
}

/// The watermark of success never moves back.
pub proof fn law_success_watermark_never_moves_back(job: MemoryJobView, completed_watermark: i64)
    ensures
        success_watermark(job, completed_watermark) >= completed_watermark,
        job.last_success_watermark is Some ==> success_watermark(job, completed_watermark) >= job.last_success_watermark->0,
{
}

/// Completing a consolidation marks exactly the outputs it rests on, in the version it rests on,
/// and changes nothing else about them.
pub proof fn law_completion_marks_what_it_rests_on(
    state: MemoryStoreView,
    completed_watermark: i64,
    chosen: Seq<Stage1OutputView>,
    now: i64,
    thread_id: ThreadId,
)
    requires
        state.outputs.contains_key(thread_id),
    ensures
        ({
            let before = state.outputs[thread_id];
            let after = completed_phase2(state, completed_watermark, chosen, now).outputs[thread_id];
            &&& completed_phase2(state, completed_watermark, chosen, now).outputs.contains_key(thread_id)
            &&& after.selected_for_phase2 == is_among(before, chosen)
            &&& after.raw_memory == before.raw_memory
            &&& after.rollout_summary == before.rollout_summary
            &&& after.source_updated_at == before.source_updated_at
            &&& after.usage_count == before.usage_count
            &&& after.last_usage == before.last_usage
        }),
{
}

/// Pruning never drops an output that a consolidation rests on, nor one that was used recently.
pub proof fn law_pruning_spares_what_is_needed(
    outputs: Map<ThreadId, Stage1OutputRowView>,
    cutoff: i64,
    limit: nat,
    victims: Seq<Stage1OutputRowView>,
    thread_id: ThreadId,
)
    requires
        forall|t: ThreadId| #[trigger] outputs.contains_key(t) ==> outputs[t].thread_id == t,
        is_listing::<Stage1OutputRow, StaleOutputs, LeastRecentlyUsed>(outputs, StaleOutputs { cutoff }, LeastRecentlyUsed {  }, limit, victims),
        outputs.contains_key(thread_id),
        outputs[thread_id].selected_for_phase2 || super::outputs::last_use(outputs[thread_id]) >= cutoff,
    ensures
        outputs.remove_keys(threads_of(victims)).contains_key(thread_id),
        outputs.remove_keys(threads_of(victims))[thread_id] == outputs[thread_id],
        victims.len() <= limit,
{
    if threads_of(victims).contains(thread_id) {
        let i = choose|i: int| 0 <= i < victims.len() && #[trigger] victims[i].thread_id == thread_id;
        assert(row_selected::<Stage1OutputRow, StaleOutputs>(outputs, StaleOutputs { cutoff }, victims[i]));
    }
}

/// What was published is what is active, with the imports of the generation before.
pub proof fn law_published_generation_is_active(
    before: MemoryStoreView,
    token: Seq<char>,
    completed_watermark: i64,
    chosen: Seq<Stage1OutputView>,
    artifacts: Seq<MemoryArtifactView>,
    generation_id: Seq<char>,
    now: i64,
    after: MemoryStoreView,
    result: Result<bool, MemoryStoreError>,
    artifact: MemoryArtifactView,
)
    requires
        publication(before, token, completed_watermark, chosen, artifacts, generation_id, now, after, result),
        result == Ok::<bool, MemoryStoreError>(true),
    ensures
        after.active_generation() is Some,
        after.active_generation()->0.generation_id == generation_id,
        after.active_generation()->0.completed_watermark == completed_watermark,
        !is_imported(artifact) ==> (after.active_generation()->0.artifacts.contains(artifact) <==> artifacts.contains(artifact)),
        is_imported(artifact) ==> (after.active_generation()->0.artifacts.contains(artifact) <==> before.active_generation() is Some
            && before.active_generation()->0.artifacts.contains(artifact)),
{
    let merged = preserving_imports(artifacts, before.active_generation());
    let published = choose|published: Seq<MemoryArtifactView>| {
        &&& super::generation::is_artifact_set(published)
        &&& same_members(merged, published)
        &&& super::artifacts::size_error(published) is None
        &&& after == #[trigger] super::artifacts::with_generation(completed_phase2(before, completed_watermark, chosen, now), generation_id, completed_watermark, published, now)
    };
    assert(after.active_generation()->0.artifacts == published);
    assert(merged.contains(artifact) <==> published.contains(artifact));
    let own_filter = |a: MemoryArtifactView| !is_imported(a);
    let import_filter = |a: MemoryArtifactView| is_imported(a);
    let own = artifacts.filter(own_filter);
    lemma_filter_members(artifacts, own_filter, artifact);
    match before.active_generation() {
        Some(generation) => {
            let imports = generation.artifacts.filter(import_filter);
            lemma_filter_members(generation.artifacts, import_filter, artifact);
            lemma_concat_members(own, imports, artifact);
        },
        None => {},
    }
}

/// After a reset no token owns anything, and there is neither an output nor a generation.
pub proof fn law_reset_revokes_everything(cleared: MemoryStoreView, thread_id: ThreadId, token: Seq<char>, now: i64)
    requires
        cleared.jobs == Map::<ThreadId, Stage1JobView>::empty(),
        cleared.global_job is None,
        cleared.outputs == Map::<ThreadId, Stage1OutputRowView>::empty(),
        cleared.generations.len() == 0,
    ensures
        !owns_stage1(cleared, thread_id, token, now),
        !owns_phase2(cleared, token, now),
        cleared.output(thread_id) is None,
        cleared.active_generation() is None,
{
}

/// Pollution keeps memory from being drawn from a thread until its mode is recorded again.
pub proof fn law_pollution_lasts_until_the_next_record(
    backend: RuntimeStateBackend,
    before: ThreadRow,
    polluted: ThreadRow,
    recorded: ThreadRow,
)
    requires
        is_polluted_version(backend, before, polluted),
        before.memory_mode_ordinal < before.stream_version,
        before.polluted_at_stream_version is None,
        recorded.memory_mode@ == "enabled"@,
        recorded.memory_mode_ordinal >= before.stream_version,
        recorded.polluted_at_stream_version == polluted.polluted_at_stream_version,
    ensures
        !is_enabled(polluted),
        is_enabled(recorded),
{
    reveal_strlit("enabled");
    reveal_strlit("polluted");
    assert("enabled"@.len() != "polluted"@.len());
}

/// A startup claims at most as many jobs as it may.
pub proof fn law_startup_claims_are_bounded(
    state: MemoryStoreView,
    worker_id: ThreadId,
    candidates: Seq<ThreadMetadata>,
    tokens: Seq<Seq<char>>,
    lease_seconds: i64,
    max_claimed: nat,
    now: i64,
    claimed: nat,
)
    requires
        claimed <= max_claimed,
    ensures
        claimed + claims_from(state, worker_id, candidates, tokens, lease_seconds, max_claimed, now, claimed).1.len() <= max_claimed,
    decreases candidates.len(),
{
    if candidates.len() > 0 && claimed < max_claimed {
        let thread = candidates[0];
        let (after, decision) = claiming(state, thread.id, worker_id, tokens[0], crate::time::whole_seconds(thread.updated_at), lease_seconds, max_claimed, now);
        if decision == Stage1Decision::Claim {
            law_startup_claims_are_bounded(after, worker_id, candidates.drop_first(), tokens.drop_first(), lease_seconds, max_claimed, now, claimed + 1);
        } else {
            law_startup_claims_are_bounded(after, worker_id, candidates.drop_first(), tokens.drop_first(), lease_seconds, max_claimed, now, claimed);
        }
    }
}

} // verus!
