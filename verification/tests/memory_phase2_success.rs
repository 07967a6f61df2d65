use codex_state::MemoryArtifact;
use codex_state::MemoryArtifactSet;
use codex_state::MemoryJob;
use codex_state::MemoryStore;
use codex_state::MemoryStoreError;
use codex_state::MemoryWorkspaceMaterialization;
use codex_state::Phase2JobClaimOutcome;
use codex_state::RuntimeStateBackend;
use codex_state::Stage1JobClaimOutcome;
use codex_state::Stage1Output;
use codex_state::StateRuntime;
use codex_state::ThreadHistoryMode;
use codex_state::ThreadId;
use codex_state::ThreadMetadata;

/// The time of every operation, in seconds.
const NOW: i64 = 1_800_000_000;

fn thread_id(text: &str) -> ThreadId {
    ThreadId { value: uuid::Uuid::parse_str(text).expect("valid thread id").as_u128() }
}

fn test_thread_metadata(id: ThreadId) -> ThreadMetadata {
    ThreadMetadata {
        id,
        rollout_path: "rollout.jsonl".to_string(),
        created_at: 1_700_000_000_000,
        updated_at: 1_700_000_000_000,
        recency_at: 1_700_000_000_000,
        source: "cli".to_string(),
        history_mode: ThreadHistoryMode::Legacy,
        thread_source: None,
        agent_nickname: None,
        agent_role: None,
        agent_path: None,
        model_provider: "test-provider".to_string(),
        model: None,
        reasoning_effort: None,
        cwd: "/workspace".to_string(),
        cli_version: "0.0.0".to_string(),
        title: String::new(),
        name: None,
        preview: Some("hello".to_string()),
        sandbox_policy: "read-only".to_string(),
        approval_mode: "on-request".to_string(),
        tokens_used: 0,
        first_user_message: Some("hello".to_string()),
        archived_at: None,
        section: None,
        section_position: None,
        section_entered_at: None,
        is_pinned: false,
        git_sha: None,
        git_branch: None,
        git_origin_url: None,
        repository_identity: None,
    }
}

fn claimed_token(outcome: Phase2JobClaimOutcome, input_watermark: i64) -> String {
    match outcome {
        Phase2JobClaimOutcome::Claimed {
            ownership_token,
            input_watermark: actual_watermark,
        } => {
            assert_eq!(actual_watermark, input_watermark);
            ownership_token
        }
        Phase2JobClaimOutcome::SkippedRetryUnavailable
        | Phase2JobClaimOutcome::SkippedCooldown
        | Phase2JobClaimOutcome::SkippedRunning => {
            panic!("expected a claimed phase-two job, got {outcome:?}")
        }
    }
}

fn persist_stage1_output(
    store: &mut MemoryStore,
    thread_id: ThreadId,
    source_updated_at: i64,
    label: &str,
) -> Result<(), MemoryStoreError> {
    let outcome = store
        .try_claim_stage1_job(
            thread_id,
            ThreadId { value: uuid::Uuid::new_v4().as_u128() },
            source_updated_at,
            60,
            4,
            NOW,
        ).expect("claim job");
    let ownership_token = match outcome {
        Stage1JobClaimOutcome::Claimed { ownership_token } => ownership_token,
        Stage1JobClaimOutcome::SkippedUpToDate
        | Stage1JobClaimOutcome::SkippedRunning
        | Stage1JobClaimOutcome::SkippedRetryBackoff
        | Stage1JobClaimOutcome::SkippedRetryExhausted => {
            panic!("expected a claimed stage-one job, got {outcome:?}")
        }
    };
    assert!(
        store
            .mark_stage1_job_succeeded(
                thread_id,
                &ownership_token,
                source_updated_at,
                &format!("raw memory {label}"),
                &format!("rollout summary {label}"),
                Some(label),
                NOW,
            )?
    );
    Ok(())
}

fn output_for_thread(outputs: &[Stage1Output], thread_id: ThreadId) -> Stage1Output {
    outputs
        .iter()
        .find(|output| output.thread_id == thread_id)
        .unwrap_or_else(|| panic!("missing phase-two output for thread {thread_id:?}"))
        .clone()
}

fn run_phase2_success_contract(runtime: &mut StateRuntime, thread_ids: [ThreadId; 2]) -> Result<(), MemoryStoreError> {
    runtime.memories().clear_memory_data().expect("clear memory");
    let source_a = NOW.saturating_sub(2 * 60 * 60);
    let source_b = NOW.saturating_sub(60 * 60);
    persist_stage1_output(runtime.memories(), thread_ids[0], source_a, "a-v1")?;
    persist_stage1_output(runtime.memories(), thread_ids[1], source_b, "b-v1")?;
    let initial_selection = runtime
        .get_phase2_input_selection(2, 36_500, NOW)?;
    assert_eq!(initial_selection.len(), 2);
    assert_eq!(
        runtime
            .get_phase2_input_selection(2, 36_500, NOW)?,
        initial_selection
    );
    let selected_a = output_for_thread(&initial_selection, thread_ids[0]);

    let initial_watermark = source_b;
    let initial_token = claimed_token(
        runtime.memories()
            .try_claim_global_phase2_job(ThreadId { value: uuid::Uuid::new_v4().as_u128() }, 60, NOW).expect("claim global job"),
        initial_watermark,
    );
    assert!(
        !runtime.memories()
            .mark_global_phase2_job_succeeded("wrong-token", initial_watermark, &initial_selection,NOW,).expect("complete global job")
    );
    assert!(
        runtime.memories()
            .heartbeat_global_phase2_job(&initial_token, 0, NOW)?
    );
    assert!(
        !runtime.memories()
            .mark_global_phase2_job_succeeded(
                &initial_token,
                initial_watermark,
                &initial_selection,
                NOW,
            ).expect("complete global job")
    );
    let takeover_token = claimed_token(
        runtime.memories()
            .try_claim_global_phase2_job(ThreadId { value: uuid::Uuid::new_v4().as_u128() }, 60, NOW).expect("claim global job"),
        initial_watermark,
    );
    assert_ne!(takeover_token, initial_token);

    persist_stage1_output(runtime.memories(), thread_ids[1], source_b + 1, "b-v2")?;
    let current_success = runtime.memories().mark_global_phase2_job_succeeded(
        &takeover_token,
        initial_watermark,
        &initial_selection,
        NOW,
    ).expect("complete global job");
    let stale_success = runtime.memories().mark_global_phase2_job_succeeded(
        &initial_token,
        initial_watermark,
        &initial_selection,
        NOW,
    ).expect("complete global job");
    assert_eq!((current_success, stale_success), (true, false));
    assert_eq!(
        runtime.memories()
            .try_claim_global_phase2_job(ThreadId { value: uuid::Uuid::new_v4().as_u128() }, 60, NOW).expect("claim global job"),
        Phase2JobClaimOutcome::SkippedCooldown
    );
    assert_eq!(
        runtime.memories()
            .prune_stage1_outputs_for_retention(0, 100, NOW)?,
        1
    );
    assert_eq!(
        runtime.list_stage1_outputs_for_global(10).expect("list outputs"),
        vec![selected_a]
    );

    persist_stage1_output(runtime.memories(), thread_ids[1], source_b + 2, "b-v3")?;
    let replacement_selection = runtime
        .get_phase2_input_selection(2, 36_500, NOW)?;
    assert_eq!(replacement_selection.len(), 2);
    assert_eq!(
        runtime
            .get_phase2_input_selection(2, 36_500, NOW)?,
        replacement_selection
    );
    let replacement_b = output_for_thread(&replacement_selection, thread_ids[1]);
    age_success_beyond_cooldown(runtime);
    let replacement_token = claimed_token(
        runtime.memories()
            .try_claim_global_phase2_job(ThreadId { value: uuid::Uuid::new_v4().as_u128() }, 60, NOW).expect("claim global job"),
        source_b + 2,
    );
    let first_success = runtime.memories().mark_global_phase2_job_succeeded(
        &replacement_token,
        initial_watermark - 1,
        std::slice::from_ref(&replacement_b),
        NOW,
    ).expect("complete global job");
    let second_success = runtime.memories().mark_global_phase2_job_succeeded(
        &replacement_token,
        initial_watermark - 1,
        std::slice::from_ref(&replacement_b),
        NOW,
    ).expect("complete global job");
    let success_outcomes = [first_success, second_success];
    assert_eq!(
        success_outcomes
            .into_iter()
            .filter(|succeeded| *succeeded)
            .count(),
        1
    );
    assert_eq!(last_success_watermark(runtime), initial_watermark);
    assert_eq!(
        runtime.memories()
            .prune_stage1_outputs_for_retention(0, 100, NOW)?,
        1
    );
    assert_eq!(
        runtime.list_stage1_outputs_for_global(10).expect("list outputs"),
        vec![replacement_b]
    );
    assert_eq!(
        runtime.memories()
            .try_claim_global_phase2_job(ThreadId { value: uuid::Uuid::new_v4().as_u128() }, 60, NOW).expect("claim global job"),
        Phase2JobClaimOutcome::SkippedCooldown
    );
    Ok(())
}

/// Moves the end of the last consolidation out of the rest that follows it.
fn age_success_beyond_cooldown(runtime: &mut StateRuntime) {
    let memories = runtime.memories();
    let job = memories.global_job().as_ref().map(|job| MemoryJob { finished_at: Some(0), ..job.clone() });
    let aged = MemoryStore::from_rows(
        RuntimeStateBackend::Sqlite,
        memories.jobs().copy(),
        job,
        memories.outputs().copy(),
        Vec::new(),
    );
    *memories = aged;
}

fn last_success_watermark(runtime: &mut StateRuntime) -> i64 {
    runtime
        .memories()
        .global_job()
        .as_ref()
        .and_then(|job| job.last_success_watermark)
        .unwrap_or(-1)
}

#[test]
fn sqlite_phase2_success_satisfies_shared_contract() -> Result<(), MemoryStoreError> {
    let mut runtime = StateRuntime::new(RuntimeStateBackend::Sqlite);
    let thread_ids = [
        thread_id("0198c4cf-8587-7d32-8d1c-2c14d3330001"),
        thread_id("0198c4cf-8587-7d32-8d1c-2c14d3330002"),
    ];
    for (index, thread_id) in thread_ids.into_iter().enumerate() {
        let mut metadata = test_thread_metadata(thread_id);
        metadata.cwd = format!("/phase2-success-{index}");
        runtime
            .upsert_thread(&metadata)
            .expect("test thread should be upserted");
    }
    run_phase2_success_contract(&mut runtime, thread_ids)
}

#[test]
fn sqlite_consolidation_completion_preserves_filesystem_authority() -> Result<(), MemoryStoreError> {
    let mut runtime = StateRuntime::new(RuntimeStateBackend::Sqlite);
    assert_eq!(
        runtime
            .memories()
            .memory_workspace_materialization().expect("materialization"),
        MemoryWorkspaceMaterialization::Preserve
    );
    runtime
        .memories()
        .enqueue_global_consolidation(10)?;
    let token = claimed_token(
        runtime
            .memories()
            .try_claim_global_phase2_job(ThreadId { value: uuid::Uuid::new_v4().as_u128() }, 60, NOW).expect("claim global job"),
        10,
    );
    let artifacts = MemoryArtifactSet::new(vec![MemoryArtifact::new(
        "MEMORY.md",
        b"filesystem authority\n".to_vec(),
    )
    .expect("portable path")])
    .expect("artifact set");

    assert!(
        runtime
            .memories()
            .complete_global_consolidation(&token, 10, &[], &artifacts, NOW)?
    );
    assert_eq!(
        runtime.memories().load_active_memory_generation().expect("load generation"),
        None
    );
    Ok(())
}
