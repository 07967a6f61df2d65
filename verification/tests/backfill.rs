use codex_state::BackfillClaimOutcome;
use codex_state::BackfillCoordinator;
use codex_state::BackfillError;
use codex_state::BackfillLease;
use codex_state::BackfillLeaseUpdate;
use codex_state::BackfillRow;
use codex_state::BackfillState;
use codex_state::BackfillStatus;
use codex_state::RuntimeStateBackend;
use codex_state::StateRuntime;

/// Milliseconds.
const ACTIVE_LEASE: u128 = 60_000;

fn claimed(outcome: BackfillClaimOutcome) -> (BackfillLease, BackfillState) {
    match outcome {
        BackfillClaimOutcome::Claimed { lease, state } => (lease, state),
        unexpected => panic!("expected claimed backfill lease, got {unexpected:?}"),
    }
}

fn run_backfill_coordination_contract(
    coordinator: &mut BackfillCoordinator,
) -> Result<(), BackfillError> {
    assert_eq!(coordinator.state()?, BackfillState::default());

    let (first_claim, second_claim) = (
        coordinator.try_claim("worker-a", ACTIVE_LEASE),
        coordinator.try_claim("worker-b", ACTIVE_LEASE)
    );
    let (first_lease, claimed_state, busy_state) =
        match (first_claim?, second_claim?) {
            (
                BackfillClaimOutcome::Claimed { lease, state },
                BackfillClaimOutcome::Busy(busy_state),
            ) => (lease, state, busy_state),
            (
                BackfillClaimOutcome::Busy(busy_state),
                BackfillClaimOutcome::Claimed { lease, state },
            ) => (lease, state, busy_state),
            unexpected => panic!("expected one claimed and one busy outcome, got {unexpected:?}"),
        };
    assert_eq!(claimed_state.status, BackfillStatus::Running);
    assert_eq!(busy_state, claimed_state);

    assert_eq!(
        coordinator
            .checkpoint(&first_lease, "sessions/rollout-a.jsonl", ACTIVE_LEASE)?,
        BackfillLeaseUpdate::Applied
    );
    assert_eq!(
        coordinator.state()?,
        BackfillState {
            status: BackfillStatus::Running,
            last_watermark: Some("sessions/rollout-a.jsonl".to_string()),
            last_success_at: None,
        }
    );
    assert_eq!(
        coordinator.heartbeat(&first_lease, ACTIVE_LEASE)?,
        BackfillLeaseUpdate::Applied
    );
    assert_eq!(
        coordinator.release(&first_lease)?,
        BackfillLeaseUpdate::Applied
    );

    let (second_lease, _) = claimed(coordinator.try_claim("worker-next", ACTIVE_LEASE)?);
    assert!(second_lease.fencing_token() > first_lease.fencing_token());
    assert_eq!(
        coordinator.heartbeat(&first_lease, ACTIVE_LEASE)?,
        BackfillLeaseUpdate::Rejected
    );
    assert_eq!(
        coordinator.release(&second_lease)?,
        BackfillLeaseUpdate::Applied
    );

    let (expired_lease, _) = claimed(coordinator.try_claim("worker-expired", 0)?);
    let (takeover_lease, _) = claimed(coordinator.try_claim("worker-takeover", ACTIVE_LEASE)?);
    assert!(takeover_lease.fencing_token() > expired_lease.fencing_token());
    assert_eq!(
        coordinator.heartbeat(&expired_lease, ACTIVE_LEASE)?,
        BackfillLeaseUpdate::Rejected
    );
    assert_eq!(
        coordinator
            .complete(&takeover_lease, Some("sessions/rollout-b.jsonl"))?,
        BackfillLeaseUpdate::Applied
    );

    let complete = coordinator.state()?;
    assert_eq!(complete.status, BackfillStatus::Complete);
    assert_eq!(
        complete.last_watermark,
        Some("sessions/rollout-b.jsonl".to_string())
    );
    assert!(complete.last_success_at.is_some());
    assert_eq!(
        coordinator.try_claim("worker-a", ACTIVE_LEASE)?,
        BackfillClaimOutcome::Complete(complete)
    );
    Ok(())
}

#[test]
fn sqlite_backfill_coordination_satisfies_shared_contract() -> Result<(), BackfillError> {
    let mut runtime = StateRuntime::new(RuntimeStateBackend::Sqlite);

    run_backfill_coordination_contract(runtime.backfill_coordinator())
}

#[test]
fn backfill_state_persists_progress_and_completion() {
    let mut runtime = StateRuntime::new(RuntimeStateBackend::Sqlite);

    let initial = runtime.get_backfill_state().expect("get initial backfill state");
    assert_eq!(initial.status, BackfillStatus::Pending);
    assert_eq!(initial.last_watermark, None);
    assert_eq!(initial.last_success_at, None);

    runtime.mark_backfill_running().expect("mark backfill running");
    runtime
        .checkpoint_backfill("sessions/2026/01/27/rollout-a.jsonl")
        .expect("checkpoint backfill");

    let running = runtime.get_backfill_state().expect("get running backfill state");
    assert_eq!(running.status, BackfillStatus::Running);
    assert_eq!(
        running.last_watermark,
        Some("sessions/2026/01/27/rollout-a.jsonl".to_string())
    );
    assert_eq!(running.last_success_at, None);

    runtime
        .mark_backfill_complete(Some("sessions/2026/01/28/rollout-b.jsonl"))
        .expect("mark backfill complete");
    let completed = runtime.get_backfill_state().expect("get completed backfill state");
    assert_eq!(completed.status, BackfillStatus::Complete);
    assert_eq!(
        completed.last_watermark,
        Some("sessions/2026/01/28/rollout-b.jsonl".to_string())
    );
    assert!(completed.last_success_at.is_some());
}

#[test]
fn get_backfill_state_repairs_a_missing_singleton_row() {
    let mut runtime = StateRuntime::new(RuntimeStateBackend::Sqlite);
    runtime.mark_backfill_running().expect("mark backfill running");
    *runtime.backfill_coordinator() = BackfillCoordinator::new(None);

    let state = runtime.get_backfill_state().expect("get repaired backfill state");
    assert_eq!(state, BackfillState::default());
    assert_eq!(runtime.backfill_coordinator().row().state, BackfillState::default());
}

#[test]
fn backfill_claim_is_singleton_until_stale_and_blocked_when_complete() {
    let mut runtime = StateRuntime::new(RuntimeStateBackend::Sqlite);

    let claimed = runtime.try_claim_backfill(3600).expect("initial backfill claim");
    assert_eq!(claimed, true);

    let duplicate_claim = runtime.try_claim_backfill(3600).expect("duplicate backfill claim");
    assert_eq!(duplicate_claim, false);

    let stale_updated_at = chrono::Utc::now().timestamp().saturating_sub(10_000);
    *runtime.backfill_coordinator() = BackfillCoordinator::new(Some(BackfillRow {
        state: BackfillState {
            status: BackfillStatus::Running,
            last_watermark: None,
            last_success_at: None,
        },
        owner_id: None,
        fencing_token: 0,
        lease_expires_at_ms: None,
        updated_at: stale_updated_at,
    }));

    let stale_claim = runtime.try_claim_backfill(10).expect("stale backfill claim");
    assert_eq!(stale_claim, true);

    runtime.mark_backfill_complete(None).expect("mark complete");
    let claim_after_complete = runtime.try_claim_backfill(3600).expect("claim after complete");
    assert_eq!(claim_after_complete, false);
}
