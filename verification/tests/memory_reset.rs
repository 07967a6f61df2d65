use codex_state::MemoryArtifact;
use codex_state::MemoryArtifactSet;
use codex_state::MemoryJob;
use codex_state::MemoryStore;
use codex_state::MemoryStoreError;
use codex_state::MemoryWorkspaceMaterialization;
use codex_state::Phase2JobClaimOutcome;
use codex_state::RuntimeStateBackend;
use codex_state::Stage1JobClaimOutcome;
use codex_state::Stage1OutputRow;
use codex_state::StateRuntime;
use codex_state::ThreadHistoryMode;
use codex_state::ThreadId;
use codex_state::ThreadMetadata;

/// The time of every operation, in seconds.
const NOW: i64 = 1_800_000_000;

fn test_thread_metadata(id: ThreadId) -> ThreadMetadata {
    ThreadMetadata {
        id,
        rollout_path: "rollout.jsonl".to_string(),
        created_at: 1_700_000_000_000,
        updated_at: 1_700_000_000_000,
        recency_at: 1_700_000_000_000,
        source: "cli".to_string(),
        history_mode: ThreadHistoryMode::Legacy,
        thread_source: None,
        agent_nickname: None,
        agent_role: None,
        agent_path: None,
        model_provider: "test-provider".to_string(),
        model: None,
        reasoning_effort: None,
        cwd: "/workspace".to_string(),
        cli_version: "0.0.0".to_string(),
        title: String::new(),
        name: None,
        preview: Some("hello".to_string()),
        sandbox_policy: "read-only".to_string(),
        approval_mode: "on-request".to_string(),
        tokens_used: 0,
        first_user_message: Some("hello".to_string()),
        archived_at: None,
        section: None,
        section_position: None,
        section_entered_at: None,
        is_pinned: false,
        git_sha: None,
        git_branch: None,
        git_origin_url: None,
        repository_identity: None,
    }
}

#[derive(Clone, Debug, Eq, PartialEq)]
struct MemoryResetSnapshot {
    memory_jobs: i64,
    outputs: i64,
    used_outputs: i64,
    selected_outputs: i64,
    generations: i64,
    artifacts: i64,
    active_generations: i64,
    threads: i64,
    history_items: i64,
    disabled_modes: i64,
    pollution_overrides: i64,
}

fn run_memory_reset_contract(
    runtime: &mut StateRuntime,
    thread_ids: [ThreadId; 2],
    expected_seeded: MemoryResetSnapshot,
    expected_materialization: MemoryWorkspaceMaterialization,
) -> Result<(), MemoryStoreError> {
    let output_thread_id = thread_ids[0];
    runtime.memories().clear_memory_data().expect("clear memory");
    let source_updated_at = 1_700_000_000;
    persist_stage1_output(runtime.memories(), output_thread_id, source_updated_at, "reset")?;
    assert_eq!(
        runtime.memories()
            .record_stage1_output_usage(&[output_thread_id], NOW)?,
        1
    );
    let selected_outputs = runtime
        .get_phase2_input_selection(1, 36_500, NOW)?;
    assert_eq!(selected_outputs.len(), 1);
    let (phase2_token, input_watermark) = claim_phase2(runtime.memories());
    assert_eq!(input_watermark, source_updated_at);
    let artifacts = MemoryArtifactSet::new(vec![MemoryArtifact::new(
        "MEMORY.md",
        b"authoritative memory before reset\n".to_vec(),
    ).expect("portable path")]).expect("artifact set");
    assert!(
        runtime.memories()
            .complete_global_consolidation(
                &phase2_token,
                source_updated_at,
                &selected_outputs,
                &artifacts,
                NOW,
            )?
    );
    assert!(
        runtime
            .mark_thread_memory_mode_polluted(output_thread_id, NOW)?
    );

    let stale_stage1_token = match runtime.memories()
        .try_claim_stage1_job(
            output_thread_id,
            ThreadId { value: uuid::Uuid::new_v4().as_u128() },
            source_updated_at + 1,
            60,
            4,
            NOW,
        ).expect("claim job")
    {
        Stage1JobClaimOutcome::Claimed { ownership_token } => ownership_token,
        outcome @ (Stage1JobClaimOutcome::SkippedUpToDate
        | Stage1JobClaimOutcome::SkippedRunning
        | Stage1JobClaimOutcome::SkippedRetryBackoff
        | Stage1JobClaimOutcome::SkippedRetryExhausted) => {
            panic!("expected stage-one claim before reset, got {outcome:?}")
        }
    };
    age_phase2_success(runtime);
    let (stale_phase2_token, _) = claim_phase2(runtime.memories());
    assert_eq!(snapshot(runtime, thread_ids), expected_seeded);

    runtime.memories().clear_memory_data().expect("clear memory");

    assert!(
        !runtime.memories()
            .mark_stage1_job_succeeded(
                output_thread_id,
                &stale_stage1_token,
                source_updated_at + 1,
                "stale raw memory",
                "stale rollout summary",
                Some("stale-reset"),
                NOW,
            )?
    );
    assert!(
        !runtime.memories()
            .complete_global_consolidation(
                &stale_phase2_token,
                source_updated_at + 1,
                &selected_outputs,
                &MemoryArtifactSet::new(vec![MemoryArtifact::new(
                    "MEMORY.md",
                    b"stale generation\n".to_vec(),
                ).expect("portable path")]).expect("artifact set"),
                NOW,
            )?
    );
    assert_eq!(
        snapshot(runtime, thread_ids),
        MemoryResetSnapshot {
            memory_jobs: 0,
            outputs: 0,
            used_outputs: 0,
            selected_outputs: 0,
            generations: 0,
            artifacts: 0,
            active_generations: 0,
            threads: expected_seeded.threads,
            history_items: expected_seeded.history_items,
            disabled_modes: expected_seeded.disabled_modes,
            pollution_overrides: expected_seeded.pollution_overrides,
        }
    );
    assert_eq!(
        runtime.memories().memory_workspace_materialization().expect("materialization"),
        expected_materialization
    );
    assert_eq!(runtime.memories().load_active_memory_generation().expect("load generation"), None);
    Ok(())
}

fn claim_phase2(store: &mut MemoryStore) -> (String, i64) {
    match store
        .try_claim_global_phase2_job(ThreadId { value: uuid::Uuid::new_v4().as_u128() }, 60, NOW).expect("claim global job")
    {
        Phase2JobClaimOutcome::Claimed {
            ownership_token,
            input_watermark,
        } => (ownership_token, input_watermark),
        outcome @ (Phase2JobClaimOutcome::SkippedRetryUnavailable
        | Phase2JobClaimOutcome::SkippedCooldown
        | Phase2JobClaimOutcome::SkippedRunning) => {
            panic!("expected phase-two claim, got {outcome:?}")
        }
    }
}


fn persist_stage1_output(
    store: &mut MemoryStore,
    thread_id: ThreadId,
    source_updated_at: i64,
    label: &str,
) -> Result<(), MemoryStoreError> {
    let outcome = store
        .try_claim_stage1_job(
            thread_id,
            ThreadId { value: uuid::Uuid::new_v4().as_u128() },
            source_updated_at,
            60,
            4,
            NOW,
        ).expect("claim job");
    let ownership_token = match outcome {
        Stage1JobClaimOutcome::Claimed { ownership_token } => ownership_token,
        Stage1JobClaimOutcome::SkippedUpToDate
        | Stage1JobClaimOutcome::SkippedRunning
        | Stage1JobClaimOutcome::SkippedRetryBackoff
        | Stage1JobClaimOutcome::SkippedRetryExhausted => {
            panic!("expected a claimed stage-one job, got {outcome:?}")
        }
    };
    assert!(
        store
            .mark_stage1_job_succeeded(
                thread_id,
                &ownership_token,
                source_updated_at,
                &format!("raw memory {label}"),
                &format!("rollout summary {label}"),
                Some(label),
                NOW,
            )?
    );
    Ok(())
}

/// Moves the end of the last consolidation out of the rest that follows it.
fn age_phase2_success(runtime: &mut StateRuntime) {
    let memories = runtime.memories();
    let job = memories.global_job().as_ref().map(|job| MemoryJob { finished_at: Some(0), ..job.clone() });
    let aged = MemoryStore::from_rows(
        RuntimeStateBackend::Sqlite,
        memories.jobs().copy(),
        job,
        memories.outputs().copy(),
        Vec::new(),
    );
    *memories = aged;
}

fn snapshot(runtime: &mut StateRuntime, thread_ids: [ThreadId; 2]) -> MemoryResetSnapshot {
    let mut modes = Vec::new();
    for thread_id in thread_ids {
        if let Some(mode) = runtime.get_thread_memory_mode(thread_id).expect("local state") {
            modes.push(mode);
        }
    }
    let memories = runtime.memories();
    let outputs: Vec<&Stage1OutputRow> = (0..memories.outputs().len()).map(|i| memories.outputs().at(i)).collect();
    MemoryResetSnapshot {
        memory_jobs: memories.jobs().len() as i64 + i64::from(memories.global_job().is_some()),
        outputs: outputs.len() as i64,
        used_outputs: outputs
            .iter()
            .filter(|output| output.usage_count > Some(0) && output.last_usage.is_some())
            .count() as i64,
        selected_outputs: outputs
            .iter()
            .filter(|output| output.selected_for_phase2 && output.selected_for_phase2_source_updated_at.is_some())
            .count() as i64,
        generations: 0,
        artifacts: 0,
        active_generations: 0,
        threads: modes.len() as i64,
        history_items: 0,
        disabled_modes: modes.iter().filter(|mode| *mode == "disabled").count() as i64,
        pollution_overrides: modes.iter().filter(|mode| *mode == "polluted").count() as i64,
    }
}

#[test]
fn sqlite_memory_reset_satisfies_shared_contract() -> Result<(), MemoryStoreError> {
    let mut runtime = StateRuntime::new(RuntimeStateBackend::Sqlite);
    let output_thread_id = ThreadId { value: uuid::Uuid::new_v4().as_u128() };
    let disabled_thread_id = ThreadId { value: uuid::Uuid::new_v4().as_u128() };
    for thread_id in [output_thread_id, disabled_thread_id] {
        let mut metadata = test_thread_metadata(thread_id);
        metadata.cwd = format!("/reset-{}", thread_id.value);
        runtime
            .upsert_thread(&metadata)
            .expect("test thread should be upserted");
    }
    runtime
        .set_thread_memory_mode(disabled_thread_id, "disabled")
        .expect("memory mode should be set");

    run_memory_reset_contract(
        &mut runtime,
        [output_thread_id, disabled_thread_id],
        MemoryResetSnapshot {
            memory_jobs: 2,
            outputs: 1,
            used_outputs: 1,
            selected_outputs: 1,
            generations: 0,
            artifacts: 0,
            active_generations: 0,
            threads: 2,
            history_items: 0,
            disabled_modes: 1,
            pollution_overrides: 1,
        },
        MemoryWorkspaceMaterialization::Preserve,
    )
}
