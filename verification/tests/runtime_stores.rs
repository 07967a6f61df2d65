use codex_state::BackfillError;
use codex_state::BackfillStatus;
use codex_state::DirectionalThreadSpawnEdgeStatus;
use codex_state::ExternalAgentConfigImportStore;
use codex_state::GoalAccountingEvent;
use codex_state::GoalAccountingMode;
use codex_state::GoalAccountingOutcome;
use codex_state::GoalAccountingRequest;
use codex_state::GoalAccountingTarget;
use codex_state::GoalStore;
use codex_state::GoalStoreErrorKind;
use codex_state::ImportRow;
use codex_state::LogStore;
use codex_state::MemoryJobStatus;
use codex_state::RemoteControlEnrollmentRecord;
use codex_state::RuntimeStateBackend;
use codex_state::StateRuntime;
use codex_state::StoredLog;
use codex_state::Table;
use codex_state::ThreadGoal;
use codex_state::ThreadGoalStatus;
use codex_state::ThreadHistoryMode;
use codex_state::ThreadId;
use codex_state::ThreadSection;
use codex_state::ThreadSpawnEdge;

fn id(value: u128) -> ThreadId {
    ThreadId { value }
}

#[test]
fn local_backfill_runs_until_it_is_complete() {
    let mut runtime = StateRuntime::new(RuntimeStateBackend::Sqlite);
    runtime.mark_backfill_running().expect("local");
    let state = runtime.get_backfill_state().expect("open");
    assert_eq!((state.status, state.last_watermark), (BackfillStatus::Running, None));
    runtime.checkpoint_backfill("sessions/1").expect("local");
    runtime.mark_backfill_running().expect("local");
    let state = runtime.get_backfill_state().expect("open");
    assert_eq!(state.last_watermark, Some("sessions/1".to_string()));
    assert_eq!(state.last_success_at, None);
    runtime.mark_backfill_complete(None).expect("local");
    let state = runtime.get_backfill_state().expect("open");
    assert_eq!(state.status, BackfillStatus::Complete);
    assert_eq!(state.last_watermark, Some("sessions/1".to_string()));
    assert!(state.last_success_at.is_some());
}

#[test]
fn shared_backfill_goes_through_leases() {
    let mut runtime = StateRuntime::new(RuntimeStateBackend::Postgresql);
    assert_eq!(runtime.mark_backfill_running(), Err(BackfillError::LocalOnly));
    assert_eq!(runtime.checkpoint_backfill("sessions/1"), Err(BackfillError::LocalOnly));
    assert_eq!(runtime.mark_backfill_complete(None), Err(BackfillError::LocalOnly));
    assert_eq!(runtime.get_backfill_state(), Err(BackfillError::LocalOnly));
    assert_eq!(runtime.backfill_coordinator().state().expect("open").status, BackfillStatus::Pending);
}

#[test]
fn remote_control_is_switched_for_known_enrollments() {
    let mut runtime = StateRuntime::new(RuntimeStateBackend::Sqlite);
    assert_eq!(runtime.set_remote_control_enabled("wss://host", "account", None, true).expect("open"), 0);
    runtime
        .upsert_remote_control_enrollment(&RemoteControlEnrollmentRecord {
            websocket_url: "wss://host".to_string(),
            account_id: "account".to_string(),
            app_server_client_name: None,
            server_id: "server".to_string(),
            environment_id: "environment".to_string(),
            server_name: "name".to_string(),
            remote_control_enabled: None,
        })
        .expect("open");
    assert_eq!(runtime.set_remote_control_enabled("wss://host", "account", None, true).expect("open"), 1);
    let found = runtime
        .get_remote_control_enrollment("wss://host", "account", None)
        .expect("open")
        .expect("enrolled");
    assert_eq!(found.remote_control_enabled, Some(true));
}

#[test]
fn stored_goals_are_taken_up_again() {
    let goal = ThreadGoal {
        thread_id: id(7),
        goal_id: "goal".to_string(),
        objective: "ship".to_string(),
        status: ThreadGoalStatus::Active,
        token_budget: Some(100),
        tokens_used: 10,
        time_used_seconds: 1,
        created_at: 1_000,
        updated_at: 2_000,
    };
    let mut goals = Table::new();
    goals.put(goal.clone());
    let mut events = Table::new();
    events.put(GoalAccountingEvent {
        thread_id: id(7),
        event_id: "event".to_string(),
        goal_id: "goal".to_string(),
        time_delta_seconds: 1,
        token_delta: 10,
        mode: "active_only".to_string(),
    });
    let mut deferrals = Table::new();
    deferrals.put(id(7));
    let mut store = GoalStore::from_rows(goals, events, deferrals);
    assert_eq!(store.goals().get(&id(7)), Some(&goal));
    assert!(store.has_thread_goal_continuation_deferral(id(7)).expect("open"));
    let retry = GoalAccountingRequest {
        event_id: "event",
        time_delta_seconds: 1,
        token_delta: 10,
        mode: GoalAccountingMode::ActiveOnly,
        target: GoalAccountingTarget::CurrentGoal,
    };
    assert_eq!(
        store.account_thread_goal_usage(id(7), retry).expect("open"),
        GoalAccountingOutcome::AlreadyAccounted(goal)
    );
    let other = GoalAccountingRequest { token_delta: 11, ..retry };
    let conflict = store.account_thread_goal_usage(id(7), other).expect_err("other usage");
    assert_eq!(conflict.kind(), GoalStoreErrorKind::Conflict);
    assert_eq!(store.events().len(), 1);
    assert_eq!(store.events().at(0).event_id, "event");
}

#[test]
fn stored_imports_are_taken_up_again() {
    let mut store = ExternalAgentConfigImportStore::new(RuntimeStateBackend::Sqlite);
    store.put_row(ImportRow {
        import_id: "import".to_string(),
        provider_id: Some("provider".to_string()),
        completed_at_ms: 5,
        successes: Vec::new(),
        failures: Vec::new(),
        memory_import_fingerprint: None,
        memory_generation_id: None,
    });
    let history = store.history();
    assert_eq!(history.len(), 1);
    assert_eq!((history[0].import_id.as_str(), history[0].completed_at_ms), ("import", 5));
    store.record_completed_at("import", None, &[], &[], 9);
    assert_eq!(store.imports().len(), 1);
    assert_eq!((store.imports().at(0).completed_at_ms, &store.imports().at(0).provider_id), (9, &None));
}

#[test]
fn threads_are_moved_and_deleted_at_the_time_of_the_clock() {
    let mut runtime = StateRuntime::new(RuntimeStateBackend::Sqlite);
    let section = ThreadSection { id: "s".to_string(), name: "S".to_string(), appearance: None };
    runtime.create_thread_section(section).expect("new section");
    assert_eq!(runtime.move_thread_to_section(id(1), Some("s"), None), Ok(false));
    let status = DirectionalThreadSpawnEdgeStatus::Open;
    runtime.upsert_thread_spawn_edge(id(1), id(2), status).expect("local");
    runtime.upsert_thread_spawn_edge(id(2), id(3), status).expect("local");
    assert_eq!(runtime.delete_thread_spawn_subtree_strict(id(1)).expect("local"), vec![id(1), id(2), id(3)]);
    assert!(runtime.list_thread_spawn_descendants(id(1)).is_empty());
}

fn stored_log(id: i64) -> StoredLog {
    StoredLog {
        id,
        ts: 1,
        ts_nanos: 0,
        level: "INFO".to_string(),
        target: "target".to_string(),
        body: Some("body".to_string()),
        thread_id: None,
        process_uuid: None,
        module: None,
        file: None,
        line: None,
        estimated_bytes: 14,
    }
}

#[test]
fn stored_logs_are_taken_up_in_the_order_of_their_identifiers() {
    let backend = RuntimeStateBackend::Sqlite;
    let store = LogStore::from_rows(backend, vec![stored_log(2), stored_log(5)], 7).expect("in order");
    assert_eq!(store.rows().iter().map(|row| row.id).collect::<Vec<_>>(), vec![2, 5]);
    assert!(LogStore::from_rows(backend, vec![stored_log(5), stored_log(2)], 7).is_none());
    assert!(LogStore::from_rows(backend, vec![stored_log(2), stored_log(2)], 7).is_none());
    assert!(LogStore::from_rows(backend, vec![stored_log(8)], 7).is_none());
    assert!(LogStore::from_rows(backend, vec![stored_log(0)], 7).is_none());
    assert!(LogStore::from_rows(backend, Vec::new(), -1).is_none());
    let negative = StoredLog { estimated_bytes: -1, ..stored_log(1) };
    assert!(LogStore::from_rows(backend, vec![negative], 7).is_none());
}

#[test]
fn stored_threads_are_taken_up_again() {
    let mut runtime = StateRuntime::new(RuntimeStateBackend::Sqlite);
    assert_eq!(runtime.allocate_thread_updated_at(5_000), Ok(5_000));
    let mut sections = Table::new();
    sections.put(ThreadSection { id: "s".to_string(), name: "S".to_string(), appearance: None });
    let mut edges = Table::new();
    edges.put(ThreadSpawnEdge {
        parent_thread_id: id(1),
        child_thread_id: id(2),
        status: DirectionalThreadSpawnEdgeStatus::Closed,
    });
    runtime.replace_rows(Table::new(), sections, edges);
    assert_eq!((runtime.threads().len(), runtime.sections().len(), runtime.spawn_edges().len()), (0, 1, 1));
    assert_eq!(runtime.list_thread_spawn_children(id(1)), vec![id(2)]);
    assert_eq!(runtime.allocate_thread_updated_at(5_000), Ok(5_001));
}

#[test]
fn stored_names_are_read_back() {
    for status in [MemoryJobStatus::Pending, MemoryJobStatus::Running, MemoryJobStatus::Done, MemoryJobStatus::Error] {
        assert_eq!(MemoryJobStatus::from_stored(status.as_str()), Some(status));
    }
    assert_eq!(MemoryJobStatus::Done.as_str(), "done");
    assert_eq!(MemoryJobStatus::from_stored("Done"), None);
    for mode in [ThreadHistoryMode::Legacy, ThreadHistoryMode::Paginated] {
        assert_eq!(ThreadHistoryMode::from_stored(mode.as_str()), Some(mode));
    }
    assert_eq!(ThreadHistoryMode::from_stored(""), None);
    for status in [DirectionalThreadSpawnEdgeStatus::Open, DirectionalThreadSpawnEdgeStatus::Closed] {
        assert_eq!(DirectionalThreadSpawnEdgeStatus::from_stored(status.as_str()), Some(status));
    }
    assert_eq!(DirectionalThreadSpawnEdgeStatus::from_stored("gone"), None);
}
