use codex_state::MemoryStoreError;
use codex_state::Phase2JobClaimOutcome;
use codex_state::RuntimeStateBackend;
use codex_state::StateRuntime;
use codex_state::ThreadId;

/// The time of every operation, in seconds.
const NOW: i64 = 1_800_000_000;

fn claimed_token(outcome: Phase2JobClaimOutcome, input_watermark: i64) -> String {
    match outcome {
        Phase2JobClaimOutcome::Claimed {
            ownership_token,
            input_watermark: actual_watermark,
        } => {
            assert_eq!(actual_watermark, input_watermark);
            ownership_token
        }
        Phase2JobClaimOutcome::SkippedRetryUnavailable
        | Phase2JobClaimOutcome::SkippedCooldown
        | Phase2JobClaimOutcome::SkippedRunning => {
            panic!("expected a claimed phase-two job, got {outcome:?}")
        }
    }
}

fn run_phase2_enqueue_and_claim_contract(
    runtime: &mut StateRuntime,
) -> Result<(), MemoryStoreError> {
    runtime.memories()
        .enqueue_global_consolidation(500)?;
    runtime.memories()
        .enqueue_global_consolidation(400)?;

    let first_claim = runtime.memories().try_claim_global_phase2_job(ThreadId { value: uuid::Uuid::new_v4().as_u128() }, 60, NOW).expect("claim global job");
    let second_claim =
        runtime.memories().try_claim_global_phase2_job(ThreadId { value: uuid::Uuid::new_v4().as_u128() }, 60, NOW).expect("claim global job");
    let outcomes = [first_claim, second_claim];
    assert_eq!(
        outcomes
            .iter()
            .filter(|outcome| {
                matches!(
                    outcome,
                    Phase2JobClaimOutcome::Claimed {
                        input_watermark: 501,
                        ..
                    }
                )
            })
            .count(),
        1
    );
    assert_eq!(
        outcomes
            .iter()
            .filter(|outcome| matches!(outcome, Phase2JobClaimOutcome::SkippedRunning))
            .count(),
        1
    );
    Ok(())
}

fn run_phase2_heartbeat_and_failure_contract(
    runtime: &mut StateRuntime,
) -> Result<(), MemoryStoreError> {
    runtime.memories().clear_memory_data().expect("clear memory");
    runtime.memories()
        .enqueue_global_consolidation(600)?;
    let initial_token = claimed_token(
        runtime.memories()
            .try_claim_global_phase2_job(ThreadId { value: uuid::Uuid::new_v4().as_u128() }, 60, NOW).expect("claim global job"),
        600,
    );
    assert!(
        !runtime.memories()
            .heartbeat_global_phase2_job("wrong-token", 60, NOW)?
    );
    assert!(
        runtime.memories()
            .heartbeat_global_phase2_job(&initial_token, 60, NOW)?
    );
    assert!(
        !runtime.memories()
            .mark_global_phase2_job_failed(
                "wrong-token",
                "must not fail another owner",
                0,
                NOW,
            )?
    );
    assert!(
        !runtime.memories()
            .mark_global_phase2_job_failed_if_unowned(
                &initial_token,
                "must not fail active owner",
                0,
                NOW,
            )?
    );
    assert!(
        runtime.memories()
            .heartbeat_global_phase2_job(&initial_token, 0, NOW)?
    );
    assert!(
        !runtime.memories()
            .heartbeat_global_phase2_job(&initial_token, 60, NOW)?
    );
    assert!(
        !runtime.memories()
            .mark_global_phase2_job_failed(
                &initial_token,
                "expired owner",
                0,
                NOW,
            )?
    );

    let takeover_token = claimed_token(
        runtime.memories()
            .try_claim_global_phase2_job(ThreadId { value: uuid::Uuid::new_v4().as_u128() }, 60, NOW).expect("claim global job"),
        600,
    );
    assert_ne!(takeover_token, initial_token);
    assert!(
        !runtime.memories()
            .mark_global_phase2_job_failed_if_unowned(
                &initial_token,
                "stale owner",
                0,
                NOW,
            )?
    );
    assert!(
        !runtime.memories()
            .mark_global_phase2_job_failed_if_unowned(
                &takeover_token,
                "must not fail takeover owner",
                0,
                NOW,
            )?
    );
    assert!(
        runtime.memories()
            .heartbeat_global_phase2_job(&takeover_token, 0, NOW)?
    );
    assert!(
        !runtime.memories()
            .mark_global_phase2_job_failed(
                &takeover_token,
                "expired takeover owner",
                0,
                NOW,
            )?
    );
    assert!(
        runtime.memories()
            .mark_global_phase2_job_failed_if_unowned(
                &takeover_token,
                "orphaned after lease expiry",
                0,
                NOW,
            )?
    );
    assert!(
        !runtime.memories()
            .mark_global_phase2_job_failed_if_unowned(
                &takeover_token,
                "must not consume retry twice",
                0,
                NOW,
            )?
    );
    let retry_token = claimed_token(
        runtime.memories()
            .try_claim_global_phase2_job(ThreadId { value: uuid::Uuid::new_v4().as_u128() }, 60, NOW).expect("claim global job"),
        600,
    );
    assert!(
        runtime.memories()
            .mark_global_phase2_job_failed(
                &retry_token,
                "retry later",
                60,
                NOW,
            )?
    );
    assert_eq!(
        runtime.memories()
            .try_claim_global_phase2_job(ThreadId { value: uuid::Uuid::new_v4().as_u128() }, 60, NOW).expect("claim global job"),
        Phase2JobClaimOutcome::SkippedRetryUnavailable
    );

    runtime.memories().clear_memory_data().expect("clear memory");
    runtime.memories()
        .enqueue_global_consolidation(700)?;
    for attempt in 0..3 {
        let token = claimed_token(
            runtime.memories()
                .try_claim_global_phase2_job(ThreadId { value: uuid::Uuid::new_v4().as_u128() }, 60, NOW).expect("claim global job"),
            700,
        );
        assert!(
            runtime.memories()
                .mark_global_phase2_job_failed(
                    &token,
                    &format!("retry failure {attempt}"),
                    0,
                    NOW,
                )?
        );
    }
    let token_after_retry_exhaustion = claimed_token(
        runtime.memories()
            .try_claim_global_phase2_job(ThreadId { value: uuid::Uuid::new_v4().as_u128() }, 60, NOW).expect("claim global job"),
        700,
    );
    assert!(
        runtime.memories()
            .heartbeat_global_phase2_job(&token_after_retry_exhaustion, 60, NOW)?
    );
    Ok(())
}

#[test]
fn sqlite_phase2_enqueue_and_claim_satisfies_shared_contract() -> Result<(), MemoryStoreError> {
    let mut runtime = StateRuntime::new(RuntimeStateBackend::Sqlite);

    run_phase2_enqueue_and_claim_contract(&mut runtime)?;
    run_phase2_heartbeat_and_failure_contract(&mut runtime)?;
    Ok(())
}
