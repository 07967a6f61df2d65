use codex_state::MemoryStoreError;
use codex_state::RuntimeStateBackend;
use codex_state::Stage1JobClaimOutcome;
use codex_state::StateRuntime;
use codex_state::ThreadHistoryMode;
use codex_state::ThreadId;
use codex_state::ThreadMetadata;

/// The time of every operation, in seconds.
const NOW: i64 = 1_800_000_000;

fn test_thread_metadata(id: ThreadId) -> ThreadMetadata {
    ThreadMetadata {
        id,
        rollout_path: "rollout.jsonl".to_string(),
        created_at: 1_700_000_000_000,
        updated_at: 1_700_000_000_000,
        recency_at: 1_700_000_000_000,
        source: "cli".to_string(),
        history_mode: ThreadHistoryMode::Legacy,
        thread_source: None,
        agent_nickname: None,
        agent_role: None,
        agent_path: None,
        model_provider: "test-provider".to_string(),
        model: None,
        reasoning_effort: None,
        cwd: "/workspace".to_string(),
        cli_version: "0.0.0".to_string(),
        title: String::new(),
        name: None,
        preview: Some("hello".to_string()),
        sandbox_policy: "read-only".to_string(),
        approval_mode: "on-request".to_string(),
        tokens_used: 0,
        first_user_message: Some("hello".to_string()),
        archived_at: None,
        section: None,
        section_position: None,
        section_entered_at: None,
        is_pinned: false,
        git_sha: None,
        git_branch: None,
        git_origin_url: None,
        repository_identity: None,
    }
}

fn run_stage1_claim_and_output_contract(
    runtime: &mut StateRuntime,
    thread_id: ThreadId,
) -> Result<(), MemoryStoreError> {
    let first_worker_id = ThreadId { value: uuid::Uuid::new_v4().as_u128() };
    let second_worker_id = ThreadId { value: uuid::Uuid::new_v4().as_u128() };
    let source_updated_at = 1_700_000_000;
    let first_claim = runtime.memories().try_claim_stage1_job(
        thread_id,
        first_worker_id,
        source_updated_at,
        60,
        4,
        NOW,
    ).expect("claim job");
    let second_claim = runtime.memories().try_claim_stage1_job(
        thread_id,
        second_worker_id,
        source_updated_at,
        60,
        4,
        NOW,
    ).expect("claim job");
    let outcomes = [first_claim, second_claim];
    let ownership_token = outcomes
        .iter()
        .find_map(|outcome| match outcome {
            Stage1JobClaimOutcome::Claimed { ownership_token } => Some(ownership_token.clone()),
            Stage1JobClaimOutcome::SkippedUpToDate
            | Stage1JobClaimOutcome::SkippedRunning
            | Stage1JobClaimOutcome::SkippedRetryBackoff
            | Stage1JobClaimOutcome::SkippedRetryExhausted => None,
        })
        .expect("one replica should claim the stage-one job");
    assert_eq!(
        outcomes
            .iter()
            .filter(|outcome| matches!(outcome, Stage1JobClaimOutcome::Claimed { .. }))
            .count(),
        1
    );
    assert_eq!(
        outcomes
            .iter()
            .filter(|outcome| matches!(outcome, Stage1JobClaimOutcome::SkippedRunning))
            .count(),
        1
    );
    assert_eq!(
        runtime.memories()
            .try_claim_stage1_job(
                thread_id,
                second_worker_id,
                source_updated_at + 1,
                60,
                4,
                NOW,
            ).expect("claim job"),
        Stage1JobClaimOutcome::SkippedRunning
    );

    assert!(
        runtime.memories()
            .mark_stage1_job_succeeded(
                thread_id,
                &ownership_token,
                source_updated_at,
                "durable raw memory",
                "durable rollout summary",
                Some("shared-stage-one"),
                NOW,
            )?
    );
    assert!(
        !runtime.memories()
            .mark_stage1_job_succeeded(
                thread_id,
                "stale-ownership-token",
                source_updated_at,
                "must not replace memory",
                "must not replace summary",
                None,
                NOW,
            )?
    );
    assert_eq!(
        runtime.memories()
            .try_claim_stage1_job(
                thread_id,
                first_worker_id,
                source_updated_at,
                60,
                4,
                NOW,
            ).expect("claim job"),
        Stage1JobClaimOutcome::SkippedUpToDate
    );
    Ok(())
}

fn claimed_token(outcome: Stage1JobClaimOutcome) -> String {
    match outcome {
        Stage1JobClaimOutcome::Claimed { ownership_token } => ownership_token,
        Stage1JobClaimOutcome::SkippedUpToDate
        | Stage1JobClaimOutcome::SkippedRunning
        | Stage1JobClaimOutcome::SkippedRetryBackoff
        | Stage1JobClaimOutcome::SkippedRetryExhausted => {
            panic!("expected a claimed stage-one job, got {outcome:?}")
        }
    }
}

fn run_stage1_retry_and_lease_contract(
    runtime: &mut StateRuntime,
    thread_id: ThreadId,
) -> Result<(), MemoryStoreError> {
    let first_worker_id = ThreadId { value: uuid::Uuid::new_v4().as_u128() };
    let second_worker_id = ThreadId { value: uuid::Uuid::new_v4().as_u128() };
    let source_updated_at = 1_700_000_001;
    let first_token = claimed_token(
        runtime.memories()
            .try_claim_stage1_job(
                thread_id,
                first_worker_id,
                source_updated_at,
                60,
                4,
                NOW,
            ).expect("claim job"),
    );
    assert!(
        !runtime.memories()
            .heartbeat_stage1_job(thread_id, "wrong-token", 60, NOW)?
    );
    assert!(
        runtime.memories()
            .heartbeat_stage1_job(thread_id, &first_token, 60, NOW)?
    );
    assert_eq!(
        runtime.memories()
            .try_claim_stage1_job(
                thread_id,
                second_worker_id,
                source_updated_at,
                60,
                4,
                NOW,
            ).expect("claim job"),
        Stage1JobClaimOutcome::SkippedRunning
    );
    assert!(
        runtime.memories()
            .heartbeat_stage1_job(thread_id, &first_token, 0, NOW)?
    );
    assert!(
        !runtime.memories()
            .heartbeat_stage1_job(thread_id, &first_token, 60, NOW)?
    );
    let outputs_before_expired_finalization =
        runtime.list_stage1_outputs_for_global(10).expect("list outputs");
    assert!(
        !runtime.memories()
            .mark_stage1_job_succeeded(
                thread_id,
                &first_token,
                source_updated_at,
                "expired memory",
                "expired summary",
                None,
                NOW,
            )?
    );
    assert!(
        !runtime.memories()
            .mark_stage1_job_succeeded_no_output(thread_id, &first_token, NOW)?
    );
    assert!(
        !runtime.memories()
            .mark_stage1_job_failed(
                thread_id,
                &first_token,
                "expired failure",
                60,
                NOW,
            )?
    );
    assert_eq!(
        runtime.list_stage1_outputs_for_global(10).expect("list outputs"),
        outputs_before_expired_finalization
    );
    let takeover_token = claimed_token(
        runtime.memories()
            .try_claim_stage1_job(
                thread_id,
                second_worker_id,
                source_updated_at,
                60,
                4,
                NOW,
            ).expect("claim job"),
    );
    assert!(
        !runtime.memories()
            .heartbeat_stage1_job(thread_id, &first_token, 60, NOW)?
    );
    assert!(
        !runtime.memories()
            .mark_stage1_job_failed(
                thread_id,
                &first_token,
                "stale failure",
                0,
                NOW,
            )?
    );
    assert!(
        !runtime.memories()
            .mark_stage1_job_succeeded_no_output(thread_id, &first_token, NOW)?
    );
    assert!(
        !runtime.memories()
            .mark_stage1_job_succeeded(
                thread_id,
                &first_token,
                source_updated_at,
                "stale memory",
                "stale summary",
                None,
                NOW,
            )?
    );

    assert!(
        runtime.memories()
            .mark_stage1_job_failed(
                thread_id,
                &takeover_token,
                "retry later",
                60,
                NOW,
            )?
    );
    assert_eq!(
        runtime.memories()
            .try_claim_stage1_job(
                thread_id,
                first_worker_id,
                source_updated_at,
                60,
                4,
                NOW,
            ).expect("claim job"),
        Stage1JobClaimOutcome::SkippedRetryBackoff
    );

    let retry_source_updated_at = source_updated_at + 1;
    for _ in 0..3 {
        let token = claimed_token(
            runtime.memories()
                .try_claim_stage1_job(
                    thread_id,
                    first_worker_id,
                    retry_source_updated_at,
                    60,
                    4,
                    NOW,
                ).expect("claim job"),
        );
        assert!(
            runtime.memories()
                .mark_stage1_job_failed(
                    thread_id,
                    &token,
                    "consume retry",
                    0,
                    NOW,
                )?
        );
    }
    assert_eq!(
        runtime.memories()
            .try_claim_stage1_job(
                thread_id,
                second_worker_id,
                retry_source_updated_at,
                60,
                4,
                NOW,
            ).expect("claim job"),
        Stage1JobClaimOutcome::SkippedRetryExhausted
    );

    let no_output_source_updated_at = retry_source_updated_at + 1;
    let no_output_token = claimed_token(
        runtime.memories()
            .try_claim_stage1_job(
                thread_id,
                second_worker_id,
                no_output_source_updated_at,
                60,
                4,
                NOW,
            ).expect("claim job"),
    );
    assert!(
        runtime.memories()
            .mark_stage1_job_succeeded_no_output(thread_id, &no_output_token, NOW)?
    );
    assert_eq!(
        runtime.memories()
            .try_claim_stage1_job(
                thread_id,
                first_worker_id,
                no_output_source_updated_at,
                60,
                4,
                NOW,
            ).expect("claim job"),
        Stage1JobClaimOutcome::SkippedUpToDate
    );

    let restored_source_updated_at = no_output_source_updated_at + 1;
    let restored_token = claimed_token(
        runtime.memories()
            .try_claim_stage1_job(
                thread_id,
                first_worker_id,
                restored_source_updated_at,
                60,
                4,
                NOW,
            ).expect("claim job"),
    );
    assert!(
        runtime.memories()
            .mark_stage1_job_succeeded(
                thread_id,
                &restored_token,
                restored_source_updated_at,
                "restored durable memory",
                "restored durable summary",
                Some("restored-stage-one"),
                NOW,
            )?
    );
    Ok(())
}

#[test]
fn sqlite_stage1_claim_and_output_satisfies_shared_contract() -> Result<(), MemoryStoreError> {
    let mut runtime = StateRuntime::new(RuntimeStateBackend::Sqlite);
    let thread_id = ThreadId { value: uuid::Uuid::new_v4().as_u128() };
    runtime
        .upsert_thread(&test_thread_metadata(thread_id))
        .expect("test thread should be upserted");

    run_stage1_claim_and_output_contract(&mut runtime, thread_id)?;
    run_stage1_retry_and_lease_contract(&mut runtime, thread_id)?;
    Ok(())
}
