use codex_state::backfill::lease_millis;
use codex_state::external_agent_config_imports::fingerprint_bytes;
use codex_state::external_agent_config_imports::memory_import_fingerprint;
use codex_state::BackfillClaimOutcome;
use codex_state::BackfillCoordinator;
use codex_state::BackfillError;
use codex_state::BackfillLease;
use codex_state::BackfillLeaseUpdate;
use codex_state::BackfillOperation;
use codex_state::BackfillRow;
use codex_state::BackfillState;
use codex_state::BackfillStatus;
use codex_state::EnrollmentError;
use codex_state::EnrollmentOperation;
use codex_state::ExternalAgentConfigImportStore;
use codex_state::ExternalAgentImportError;
use codex_state::ExternalAgentMemoryImport;
use codex_state::ImportRecordError;
use codex_state::MemoryArtifact;
use codex_state::MemoryArtifactError;
use codex_state::MemoryArtifactSet;
use codex_state::MemoryStore;
use codex_state::RemoteControlEnrollmentRecord;
use codex_state::RemoteControlEnrollmentStore;
use codex_state::RuntimeStateBackend;
use codex_state::StateRuntime;

fn claimed(outcome: BackfillClaimOutcome) -> BackfillLease {
    match outcome {
        BackfillClaimOutcome::Claimed { lease, .. } => lease,
        other => panic!("expected a lease, got {other:?}"),
    }
}

#[test]
fn leased_backfill_is_busy_until_the_lease_expires() {
    let mut coordinator = BackfillCoordinator::new(None);
    let first = claimed(coordinator.try_claim_at("a", 100, 1_000).expect("open"));
    assert_eq!((first.owner_id(), first.fencing_token()), ("a", 1));
    assert!(matches!(
        coordinator.try_claim_at("b", 100, 1_099).expect("open"),
        BackfillClaimOutcome::Busy(_)
    ));
    let second = claimed(coordinator.try_claim_at("b", 100, 1_100).expect("open"));
    assert!(second.fencing_token() > first.fencing_token());
}

#[test]
fn lost_lease_changes_nothing() {
    let mut coordinator = BackfillCoordinator::new(None);
    let first = claimed(coordinator.try_claim_at("a", 100, 1_000).expect("open"));
    let second = claimed(coordinator.try_claim_at("b", 100, 2_000).expect("open"));
    let before = coordinator.state().expect("open");
    assert_eq!(
        coordinator.update_lease_at(BackfillOperation::Checkpoint, &first, 100, Some("lost"), 2_010),
        Ok(BackfillLeaseUpdate::Rejected)
    );
    assert_eq!(
        coordinator.finish_at(BackfillOperation::Complete, &first, BackfillStatus::Complete, None, 2_010),
        Ok(BackfillLeaseUpdate::Rejected)
    );
    assert_eq!(coordinator.state().expect("open"), before);
    assert_eq!(
        coordinator.update_lease_at(BackfillOperation::Heartbeat, &second, 100, None, 2_010),
        Ok(BackfillLeaseUpdate::Applied)
    );
}

#[test]
fn finished_lease_is_over_and_complete_is_final() {
    let mut coordinator = BackfillCoordinator::new(None);
    let lease = claimed(coordinator.try_claim_at("a", 100, 1_000).expect("open"));
    assert_eq!(
        coordinator.finish_at(BackfillOperation::Release, &lease, BackfillStatus::Pending, None, 1_010),
        Ok(BackfillLeaseUpdate::Applied)
    );
    assert_eq!(
        coordinator.update_lease_at(BackfillOperation::Heartbeat, &lease, 100, None, 1_020),
        Ok(BackfillLeaseUpdate::Rejected)
    );
    let lease = claimed(coordinator.try_claim_at("a", 100, 1_030).expect("open"));
    coordinator
        .finish_at(BackfillOperation::Complete, &lease, BackfillStatus::Complete, Some("end"), 1_100)
        .expect("open");
    let complete = coordinator.state().expect("open");
    assert_eq!(
        complete,
        BackfillState {
            status: BackfillStatus::Complete,
            last_watermark: Some("end".to_string()),
            last_success_at: Some(1),
        }
    );
    assert_eq!(
        coordinator.try_claim_at("b", 100, 9_000).expect("open"),
        BackfillClaimOutcome::Complete(complete)
    );
    assert_eq!(coordinator.try_claim_slot_at(0, 9_000), Ok(false));
}

#[test]
fn backfill_errors_say_what_failed() {
    let mut coordinator = BackfillCoordinator::new(None);
    let empty = coordinator.try_claim_at("", 100, 0).expect_err("no owner");
    assert_eq!(empty.message(), "backfill owner ID must not be empty");
    let long = coordinator.try_claim_at("a", u128::MAX, 0).expect_err("too long");
    assert_eq!(long, BackfillError::LeaseTooLong);
    assert_eq!(long.message(), "backfill lease duration exceeds supported range");
    assert_eq!(lease_millis(9_223_372_036_854_775_807), Ok(i64::MAX));
    assert_eq!(lease_millis(9_223_372_036_854_775_808), Err(BackfillError::LeaseTooLong));
    coordinator.close();
    let closed = coordinator.state().expect_err("closed");
    assert_eq!(closed, BackfillError::Persistence(BackfillOperation::State));
    assert!(closed.message().starts_with("Runtime State could not complete the `"));
    let mut shared = StateRuntime::new(RuntimeStateBackend::Postgresql);
    assert_eq!(shared.get_backfill_state(), Err(BackfillError::LocalOnly));
    assert_eq!(shared.try_claim_backfill(1), Err(BackfillError::LocalOnly));
    assert_eq!(BackfillLeaseUpdate::from(true), BackfillLeaseUpdate::Applied);
    assert_eq!(BackfillLeaseUpdate::from(false), BackfillLeaseUpdate::Rejected);
}

#[test]
fn tokens_that_no_number_can_hold_are_not_given_out() {
    let mut coordinator = BackfillCoordinator::new(Some(BackfillRow {
        state: BackfillState::default(),
        owner_id: None,
        fencing_token: i64::MAX,
        lease_expires_at_ms: None,
        updated_at: 0,
    }));
    assert_eq!(
        coordinator.try_claim_at("a", 100, 1_000),
        Err(BackfillError::Persistence(BackfillOperation::Claim))
    );
}

fn enrollment(account: &str, client: Option<&str>, server: &str, enabled: Option<bool>) -> RemoteControlEnrollmentRecord {
    RemoteControlEnrollmentRecord {
        websocket_url: "wss://example.com".to_string(),
        account_id: account.to_string(),
        app_server_client_name: client.map(str::to_string),
        server_id: server.to_string(),
        environment_id: "environment".to_string(),
        server_name: "name".to_string(),
        remote_control_enabled: enabled,
    }
}

#[test]
fn enrollments_are_read_back_by_their_own_values() {
    let mut store = RemoteControlEnrollmentStore::new();
    let records = [
        enrollment("a", None, "1", None),
        enrollment("b", None, "2", Some(true)),
        enrollment("a", Some("client"), "3", Some(false)),
    ];
    for record in &records {
        store.upsert(record).expect("open");
    }
    for record in &records {
        let found = store
            .get(&record.websocket_url, &record.account_id, record.app_server_client_name.as_deref())
            .expect("open");
        assert_eq!(found.as_ref(), Some(record));
    }
}

#[test]
fn preference_outlasts_enrollment() {
    let mut store = RemoteControlEnrollmentStore::new();
    store.upsert(&enrollment("a", None, "1", None)).expect("open");
    store.upsert(&enrollment("a", None, "2", Some(true))).expect("open");
    let found = store.get("wss://example.com", "a", None).expect("open").expect("stored");
    assert_eq!((found.server_id.as_str(), found.remote_control_enabled), ("2", None));
    assert_eq!(store.set_enabled("wss://example.com", "a", None, true), Ok(1));
    assert_eq!(store.set_enabled("wss://example.com", "z", None, true), Ok(0));
    store.upsert(&enrollment("a", None, "3", Some(false))).expect("open");
    let found = store.get("wss://example.com", "a", None).expect("open").expect("stored");
    assert_eq!(found.remote_control_enabled, Some(true));
}

#[test]
fn empty_client_name_is_none() {
    let mut store = RemoteControlEnrollmentStore::new();
    store.upsert(&enrollment("a", Some(""), "1", None)).expect("open");
    let found = store.get("wss://example.com", "a", None).expect("open").expect("stored");
    assert_eq!(found.app_server_client_name, None);
    assert_eq!(store.delete("wss://example.com", "a", Some("")), Ok(1));
    assert_eq!(store.delete("wss://example.com", "a", None), Ok(0));
}

#[test]
fn closed_enrollments_fail_by_operation() {
    let mut store = RemoteControlEnrollmentStore::new();
    store.close();
    assert_eq!(
        store.upsert(&enrollment("a", None, "1", None)),
        Err(EnrollmentError { operation: EnrollmentOperation::Upsert })
    );
    assert_eq!(
        store.set_enabled("w", "a", None, true),
        Err(EnrollmentError { operation: EnrollmentOperation::SetEnabled })
    );
    let error = store.delete("w", "a", None).expect_err("closed");
    assert_eq!(
        error.message(),
        "Runtime State could not complete the `delete remote control enrollment` operation; verify enrollment persistence health, then retry"
    );
}

fn resource(project: &str, contents: &str) -> MemoryArtifact {
    MemoryArtifact::new(
        &format!("extensions/external_agent_import/resources/{project}/MEMORY.md"),
        contents.as_bytes().to_vec(),
    )
    .expect("portable")
}

fn import(projects: &[&str], artifacts: Vec<MemoryArtifact>) -> ExternalAgentMemoryImport {
    ExternalAgentMemoryImport::new(
        projects.iter().map(|project| project.to_string()).collect(),
        MemoryArtifactSet::new(artifacts).expect("set"),
    )
    .expect("import")
}

#[test]
fn refused_imports_say_why() {
    let empty = || MemoryArtifactSet::new(Vec::new()).expect("set");
    let none = ExternalAgentMemoryImport::new(Vec::new(), empty()).expect_err("no project");
    assert_eq!(none.message(), "external-agent Memory Artifact publication requires a selected project");
    let path = ExternalAgentMemoryImport::new(vec!["a/b".to_string()], empty()).expect_err("path");
    assert_eq!(path.message(), "external-agent memory project keys must be one portable path component");
    let outside = ExternalAgentMemoryImport::new(
        vec!["a".to_string()],
        MemoryArtifactSet::new(vec![resource("b", "x")]).expect("set"),
    )
    .expect_err("outside");
    assert_eq!(
        outside.message(),
        "external-agent Memory Artifact is outside the selected project replacements"
    );
    let reserved = ExternalAgentMemoryImport::new(vec!["con".to_string()], empty()).expect_err("reserved");
    assert_eq!(reserved, ExternalAgentImportError::Artifact(MemoryArtifactError::NotPortable));
    assert_eq!(
        ExternalAgentImportError::Reused.message(),
        "external-agent import identifier was reused with different Memory Artifacts"
    );
}

#[test]
fn overlay_replaces_selected_projects() {
    let older = import(&["a", "b"], vec![resource("a", "old a"), resource("b", "old b")]);
    let newer = import(&["b", "c"], vec![resource("c", "new c")]);
    let merged = older.overlay(newer).expect("merged");
    assert_eq!(merged.project_keys(), &["a".to_string(), "b".to_string(), "c".to_string()]);
    assert_eq!(merged.artifacts().artifacts(), &[resource("a", "old a"), resource("c", "new c")]);
}

#[test]
fn fingerprints_frame_keys_and_artifacts() {
    let memory_import = import(&["a"], vec![resource("a", "x")]);
    let path = "extensions/external_agent_import/resources/a/MEMORY.md";
    let mut framed = b"codex-external-agent-memory-import-v1\0".to_vec();
    framed.extend_from_slice(&1u64.to_le_bytes());
    framed.push(b'a');
    framed.push(0xff);
    framed.extend_from_slice(&(path.len() as u64).to_le_bytes());
    framed.extend_from_slice(path.as_bytes());
    framed.extend_from_slice(&1u64.to_le_bytes());
    framed.push(b'x');
    let bytes = fingerprint_bytes(&memory_import);
    assert_eq!(bytes, framed);
    let fingerprint = memory_import_fingerprint(&memory_import);
    assert_eq!(fingerprint.len(), 32);
    assert_eq!(fingerprint, <sha2::Sha256 as sha2::Digest>::digest(&bytes).to_vec());
    assert_ne!(fingerprint, bytes);
    assert_ne!(fingerprint, memory_import_fingerprint(&import(&["a"], vec![resource("a", "y")])));
}

#[test]
fn completions_are_read_back_once_per_identifier() {
    let mut store = ExternalAgentConfigImportStore::new(RuntimeStateBackend::Sqlite);
    store.record_completed_at("one", None, &[], &[], 10);
    store.record_completed_at("two", Some("provider"), &[], &[], 20);
    store.record_completed_at("one", Some("later"), &[], &[], 30);
    let history = store.history();
    assert_eq!(
        history
            .iter()
            .map(|record| (record.import_id.as_str(), record.provider_id.as_deref(), record.completed_at_ms))
            .collect::<Vec<_>>(),
        vec![("one", Some("later"), 30), ("two", Some("provider"), 20)]
    );
    assert_eq!(store.details("three"), None);
}

#[test]
fn retried_memory_imports_apply_once_in_a_shared_database() {
    let mut store = ExternalAgentConfigImportStore::new(RuntimeStateBackend::Postgresql);
    let mut memories = MemoryStore::new(RuntimeStateBackend::Postgresql);
    let memory_import = import(&["a"], vec![resource("a", "shared")]);
    for attempt in 1..=2 {
        store
            .record_completed_with_memory_import_at(
                &mut memories,
                "import",
                None,
                &[],
                &[],
                &memory_import,
                format!("generation-{attempt}"),
                attempt * 1_000,
                attempt * 50,
            )
            .expect("recorded");
    }
    let active = memories.load_active_memory_generation().expect("load generation").expect("published");
    assert_eq!(active.generation_id(), "generation-1");
    assert_eq!(active.artifacts(), &[resource("a", "shared")]);
    // The generation and the job are dated by the memory store, the completion by the import.
    assert_eq!(active.published_at(), 50);
    assert_eq!(memories.global_job().as_ref().expect("enqueued").input_watermark, Some(50));
    assert_eq!(store.history()[0].completed_at_ms, 2_000);

    let other = import(&["a"], vec![resource("a", "different")]);
    let refused = store
        .record_completed_with_memory_import_at(&mut memories, "import", None, &[], &[], &other, "g".to_string(), 9_000, 9)
        .expect_err("reused");
    assert_eq!(refused, ImportRecordError::Import(ExternalAgentImportError::Reused));
    assert_eq!(
        refused.message(),
        "external-agent import identifier was reused with different Memory Artifacts"
    );
    assert_eq!(memories.load_active_memory_generation().expect("load generation"), Some(active));
}
