use codex_state::external_agent_config_imports::overlay_artifacts;
use codex_state::memory_store::generation::first_collision;
use codex_state::memory_store::generation::FoldCollision;
use codex_state::memory_store::memory_generation_from_rows;
use codex_state::Anchor;
use codex_state::BackfillClaimOutcome;
use codex_state::BackfillCoordinator;
use codex_state::BackfillError;
use codex_state::BackfillOperation;
use codex_state::DeleteThreadsError;
use codex_state::ExternalAgentImportError;
use codex_state::ExternalAgentMemoryImport;
use codex_state::GoalAccountingOutcome;
use codex_state::LogEntry;
use codex_state::LogQuery;
use codex_state::LogStore;
use codex_state::LogStoreError;
use codex_state::MemoryArtifact;
use codex_state::MemoryArtifactError;
use codex_state::MemoryArtifactSet;
use codex_state::MemoryGenerationRow;
use codex_state::MemoryStore;
use codex_state::MemoryStoreError;
use codex_state::MemoryWorkspaceMaterialization;
use codex_state::PostgresNamespaceConfig;
use codex_state::RuntimeStateBackend;
use codex_state::RuntimeStateBackendConfig;
use codex_state::SortDirection;
use codex_state::SortKey;
use codex_state::Stage1OutputRow;
use codex_state::Stage1StartupClaimParams;
use codex_state::StateRuntime;
use codex_state::StoredArtifact;
use codex_state::Table;
use codex_state::ThreadFilterOptions;
use codex_state::ThreadHistoryMode;
use codex_state::ThreadId;
use codex_state::ThreadMetadata;
use codex_state::ThreadResumeMetadata;
use codex_state::ThreadRow;
use codex_state::ThreadSection;

const NOW: i64 = 1_800_000_000;
const WORKER: ThreadId = ThreadId { value: 99 };

fn id(value: u128) -> ThreadId {
    ThreadId { value }
}

fn test_thread_metadata(id: ThreadId) -> ThreadMetadata {
    ThreadMetadata {
        id,
        rollout_path: "rollout.jsonl".to_string(),
        created_at: 1_700_000_000_000,
        updated_at: 1_700_000_000_000,
        recency_at: 1_700_000_000_000,
        source: "cli".to_string(),
        history_mode: ThreadHistoryMode::Legacy,
        thread_source: None,
        agent_nickname: None,
        agent_role: None,
        agent_path: None,
        model_provider: "test-provider".to_string(),
        model: None,
        reasoning_effort: None,
        cwd: "/workspace".to_string(),
        cli_version: "0.0.0".to_string(),
        title: String::new(),
        name: None,
        preview: Some("hello".to_string()),
        sandbox_policy: "read-only".to_string(),
        approval_mode: "on-request".to_string(),
        tokens_used: 0,
        first_user_message: Some("hello".to_string()),
        archived_at: None,
        section: None,
        section_position: None,
        section_entered_at: None,
        is_pinned: false,
        git_sha: None,
        git_branch: None,
        git_origin_url: None,
        repository_identity: None,
    }
}

fn row(metadata: ThreadMetadata) -> ThreadRow {
    ThreadRow {
        metadata,
        memory_mode: "enabled".to_string(),
        memory_mode_ordinal: -1,
        stream_version: 0,
        polluted_at_stream_version: None,
        has_rollout_path: true,
    }
}

fn entry(ts: i64, thread: Option<&str>) -> LogEntry {
    LogEntry {
        ts,
        ts_nanos: 0,
        level: "INFO".to_string(),
        target: "target".to_string(),
        message: Some("message".to_string()),
        feedback_log_body: None,
        thread_id: thread.map(|thread| thread.to_string()),
        process_uuid: Some("process-1".to_string()),
        module: None,
        file: None,
        line: None,
    }
}

fn artifact(path: &str, contents: &str) -> MemoryArtifact {
    MemoryArtifact::new(path, contents.as_bytes().to_vec()).expect("portable")
}

fn set(artifacts: Vec<MemoryArtifact>) -> MemoryArtifactSet {
    MemoryArtifactSet::new(artifacts).expect("set")
}

fn output(thread: u128, source_updated_at: i64, generated_at: i64) -> Stage1OutputRow {
    Stage1OutputRow {
        thread_id: id(thread),
        source_updated_at,
        raw_memory: "raw".to_string(),
        rollout_summary: "summary".to_string(),
        rollout_slug: None,
        generated_at,
        usage_count: None,
        last_usage: None,
        selected_for_phase2: false,
        selected_for_phase2_source_updated_at: None,
    }
}

fn runtime_with_outputs(rows: Vec<Stage1OutputRow>) -> StateRuntime {
    let mut runtime = StateRuntime::new(RuntimeStateBackend::Sqlite);
    let mut outputs = Table::new();
    for output in rows {
        runtime.put_thread_row(row(test_thread_metadata(output.thread_id)));
        outputs.put(output);
    }
    *runtime.memories() = MemoryStore::from_rows(RuntimeStateBackend::Sqlite, Table::new(), None, outputs, Vec::new());
    runtime
}

#[test]
fn closed_backfill_refuses_the_operations_of_the_runtime() {
    let mut runtime = StateRuntime::new(RuntimeStateBackend::Sqlite);
    assert_eq!(runtime.try_claim_backfill(60), Ok(true));
    assert_eq!(runtime.checkpoint_backfill("a"), Ok(()));
    let before = runtime.get_backfill_state().expect("open");
    runtime.close();
    assert_eq!(runtime.try_claim_backfill(60), Err(BackfillError::Persistence(BackfillOperation::Claim)));
    assert_eq!(runtime.mark_backfill_running(), Err(BackfillError::Persistence(BackfillOperation::Run)));
    assert!(matches!(runtime.checkpoint_backfill("b"), Err(BackfillError::Persistence(_))));
    assert!(matches!(runtime.mark_backfill_complete(Some("c")), Err(BackfillError::Persistence(_))));
    assert_eq!(before.last_watermark, Some("a".to_string()));
    assert!(runtime.get_backfill_state().is_err());
}

#[test]
fn closed_memory_fails_and_keeps_what_it_holds() {
    let mut runtime = runtime_with_outputs(vec![output(1, 10, 20)]);
    let closed = MemoryStoreError::Closed;
    assert_eq!(closed.message(), "memory store is closed");
    runtime.memories().close();
    let store = runtime.memories();
    assert_eq!(store.try_claim_stage1_job(id(1), WORKER, 10, 60, 2, NOW), Err(MemoryStoreError::Closed));
    assert_eq!(
        store.mark_stage1_job_succeeded(id(1), "t", 10, "raw", "summary", None, NOW),
        Err(MemoryStoreError::Closed)
    );
    assert_eq!(store.mark_stage1_job_succeeded_no_output(id(1), "t", NOW), Err(MemoryStoreError::Closed));
    assert_eq!(store.heartbeat_stage1_job(id(1), "t", 60, NOW), Err(MemoryStoreError::Closed));
    assert_eq!(store.mark_stage1_job_failed(id(1), "t", "why", 60, NOW), Err(MemoryStoreError::Closed));
    assert_eq!(store.enqueue_global_consolidation(1), Err(MemoryStoreError::Closed));
    assert_eq!(store.try_claim_global_phase2_job(WORKER, 60, NOW), Err(MemoryStoreError::Closed));
    assert_eq!(store.heartbeat_global_phase2_job("t", 60, NOW), Err(MemoryStoreError::Closed));
    assert_eq!(store.mark_global_phase2_job_failed("t", "why", 60, NOW), Err(MemoryStoreError::Closed));
    assert_eq!(store.mark_global_phase2_job_failed_if_unowned("t", "why", 60, NOW), Err(MemoryStoreError::Closed));
    assert_eq!(store.mark_global_phase2_job_succeeded("t", 1, &[], NOW), Err(MemoryStoreError::Closed));
    assert_eq!(store.complete_global_consolidation("t", 1, &[], &set(Vec::new()), NOW), Err(MemoryStoreError::Closed));
    assert_eq!(store.record_stage1_output_usage(&[], NOW), Ok(0));
    assert_eq!(store.record_stage1_output_usage(&[id(1)], NOW), Err(MemoryStoreError::Closed));
    assert_eq!(store.prune_stage1_outputs_for_retention(30, 0, NOW), Ok(0));
    assert_eq!(store.prune_stage1_outputs_for_retention(30, 1, NOW), Err(MemoryStoreError::Closed));
    assert_eq!(store.delete_thread_memory(id(1), NOW), Err(MemoryStoreError::Closed));
    assert_eq!(store.clear_memory_data(), Err(MemoryStoreError::Closed));
    // A local database has no generation to load.
    assert_eq!(store.load_active_memory_generation(), Ok(None));
    assert_eq!(store.memory_workspace_materialization(), Ok(MemoryWorkspaceMaterialization::Preserve));
    assert_eq!(store.outputs().len(), 1);
    assert_eq!(runtime.list_stage1_outputs_for_global(0), Ok(Vec::new()));
    assert_eq!(runtime.list_stage1_outputs_for_global(1), Err(MemoryStoreError::Closed));
    assert_eq!(runtime.get_phase2_input_selection(1, 30, NOW), Err(MemoryStoreError::Closed));
    assert_eq!(runtime.mark_thread_memory_mode_polluted(id(1), NOW), Err(MemoryStoreError::Closed));

    let mut shared = MemoryStore::new(RuntimeStateBackend::Postgresql);
    shared.close();
    assert_eq!(shared.load_active_memory_generation(), Err(MemoryStoreError::Closed));
    assert_eq!(shared.memory_workspace_materialization(), Err(MemoryStoreError::Closed));
    assert!(matches!(
        shared.import_migrated_memory_generation("g".to_string(), 1, &set(Vec::new()), NOW),
        Err(MemoryStoreError::Closed)
    ));
}

#[test]
fn closed_logs_fail_and_keep_what_they_hold() {
    let mut store = LogStore::new(RuntimeStateBackend::Sqlite);
    store.insert_log(&entry(NOW, Some("thread-1")), &[]).expect("open");
    store.close();
    assert_eq!(LogStoreError::Closed.message(), "log store is closed");
    assert_eq!(store.insert_logs(&[], &[]), Ok(()));
    assert_eq!(store.insert_log(&entry(NOW, Some("thread-1")), &[]), Err(LogStoreError::Closed));
    assert_eq!(store.query_logs(&LogQuery::default()), Err(LogStoreError::Closed));
    assert_eq!(store.max_log_id(&LogQuery::default()), Err(LogStoreError::Closed));
    assert_eq!(store.query_feedback_logs("thread-1"), Err(LogStoreError::Closed));
    assert_eq!(store.query_feedback_logs_for_threads(&[]), Ok(Vec::new()));
    assert_eq!(store.delete_logs_for_thread("thread-1"), Err(LogStoreError::Closed));
    assert_eq!(store.run_startup_maintenance_at(NOW), Err(LogStoreError::Closed));
    assert_eq!(store.run_startup_maintenance_at(i64::MIN), Ok(()));
    assert_eq!(store.rows().len(), 1);
    assert_eq!(store.last_id(), 1);
}

#[test]
fn deletion_stops_at_the_part_that_is_closed() {
    let mut runtime = StateRuntime::new(RuntimeStateBackend::Sqlite);
    runtime.put_thread_row(row(test_thread_metadata(id(1))));
    runtime.insert_log(&entry(NOW, Some("00000000-0000-0000-0000-000000000001"))).expect("open");
    runtime.memories().close();
    let error = runtime.delete_thread(id(1)).expect_err("closed memory");
    assert!(matches!(error, DeleteThreadsError::Memory(MemoryStoreError::Closed)));
    // The logs went first; the thread is still there.
    assert_eq!(runtime.query_logs(&LogQuery::default()), Ok(Vec::new()));
    assert!(runtime.get_thread(id(1)).expect("local").is_some());

    let mut shared = StateRuntime::new(RuntimeStateBackend::Postgresql);
    shared.put_thread_row(row(test_thread_metadata(id(1))));
    shared.insert_log(&entry(NOW, Some("00000000-0000-0000-0000-000000000001"))).expect("open");
    shared.memories().close();
    assert!(matches!(shared.delete_thread(id(1)), Err(DeleteThreadsError::Memory(MemoryStoreError::Closed))));
    assert_eq!(shared.query_logs(&LogQuery::default()).expect("open").len(), 1);

    let mut closed = StateRuntime::new(RuntimeStateBackend::Sqlite);
    closed.put_thread_row(row(test_thread_metadata(id(1))));
    closed.close();
    let error = closed.delete_thread(id(1)).expect_err("closed logs");
    assert!(matches!(error, DeleteThreadsError::Logs(LogStoreError::Closed)));
    assert_eq!(error.message(), "log store is closed");
}

#[test]
fn nothing_is_asked_for_before_anything_is_counted() {
    let mut runtime = runtime_with_outputs(vec![output(1, 10, 20)]);
    assert_eq!(runtime.get_phase2_input_selection(0, i64::MAX, i64::MIN), Ok(Vec::new()));
    assert_eq!(runtime.get_phase2_input_selection(1, i64::MAX, i64::MIN), Err(MemoryStoreError::OutOfRange));
    assert_eq!(runtime.memories().prune_stage1_outputs_for_retention(i64::MAX, 0, i64::MIN), Ok(0));
    assert_eq!(
        runtime.memories().prune_stage1_outputs_for_retention(i64::MAX, 1, i64::MIN),
        Err(MemoryStoreError::OutOfRange)
    );
    let params = Stage1StartupClaimParams {
        scan_limit: 0,
        max_claimed: 1,
        max_age_days: 30,
        min_rollout_idle_hours: 1,
        allowed_sources: &[],
        lease_seconds: 60,
    };
    runtime.memories().close();
    assert_eq!(runtime.claim_stage1_jobs_for_startup(id(1), params, NOW * 1_000).expect("nothing asked").len(), 0);
}

#[test]
fn outputs_whose_times_name_no_date_are_not_read() {
    let mut runtime = runtime_with_outputs(vec![output(1, i64::MAX, 20), output(2, 10, 20)]);
    let error = runtime.list_stage1_outputs_for_global(2).expect_err("no date");
    assert_eq!(error, MemoryStoreError::Timestamp(i64::MAX));
    assert_eq!(error.message(), "invalid unix timestamp: 9223372036854775807");
    let mut runtime_generated = runtime_with_outputs(vec![output(1, 10, i64::MIN), output(2, 10, 20)]);
    assert_eq!(runtime_generated.get_phase2_input_selection(2, 30, 20), Err(MemoryStoreError::Timestamp(i64::MIN)));
    assert_eq!(
        MemoryStoreError::Timestamp(i64::MIN).message(),
        "invalid unix timestamp: -9223372036854775808"
    );
    assert_eq!(runtime_generated.memories().record_stage1_output_usage(&[id(1), id(3)], 20), Ok(1));
    assert_eq!(runtime.memories().outputs().len(), 2);
}

#[test]
fn threads_without_a_rollout_have_no_path() {
    let mut runtime = StateRuntime::new(RuntimeStateBackend::Postgresql);
    let mut without = row(test_thread_metadata(id(1)));
    without.has_rollout_path = false;
    without.metadata.rollout_path = String::new();
    runtime.put_thread_row(without);
    runtime.put_thread_row(row(test_thread_metadata(id(2))));
    assert_eq!(runtime.find_rollout_path_by_id(id(1), None), None);
    assert_eq!(runtime.find_rollout_path_by_id(id(2), None), Some("rollout.jsonl".to_string()));
}

fn resource(project: &str, name: &str, contents: &str) -> MemoryArtifact {
    artifact(&format!("extensions/external_agent_import/resources/{project}/{name}"), contents)
}

fn instructions(contents: &str) -> MemoryArtifact {
    artifact("extensions/external_agent_import/instructions.md", contents)
}

fn import(projects: &[&str], artifacts: Vec<MemoryArtifact>) -> ExternalAgentMemoryImport {
    ExternalAgentMemoryImport::new(projects.iter().map(|project| project.to_string()).collect(), set(artifacts)).expect("import")
}

#[test]
fn overlay_is_associative_and_idempotent() {
    let first = import(&["a", "b"], vec![resource("a", "x", "1"), resource("b", "y", "1"), instructions("one")]);
    let second = import(&["b"], vec![resource("b", "z", "2"), instructions("two")]);
    let third = import(&["c"], vec![resource("c", "x", "3")]);
    let left = first.clone().overlay(second.clone()).expect("first two").overlay(third.clone()).expect("left");
    let right = first.clone().overlay(second.clone().overlay(third.clone()).expect("last two")).expect("right");
    assert_eq!(left, right);
    assert_eq!(left.project_keys(), &["a".to_string(), "b".to_string(), "c".to_string()]);
    assert_eq!(
        left.artifacts().artifacts(),
        &[instructions("two"), resource("a", "x", "1"), resource("b", "z", "2"), resource("c", "x", "3")]
    );
    assert_eq!(first.clone().overlay(first.clone()).expect("itself"), first);
    let laid = overlay_artifacts(
        first.artifacts().artifacts(),
        &vec!["b".to_string()],
        second.artifacts().artifacts(),
    );
    assert_eq!(laid, vec![resource("a", "x", "1"), instructions("two"), resource("b", "z", "2")]);
}

#[test]
fn overlays_with_keys_that_differ_in_case_fail_in_either_order() {
    let lower = import(&["a"], vec![resource("a", "x", "1")]);
    let upper = import(&["A"], Vec::new());
    let other = import(&["b"], Vec::new());
    assert!(matches!(
        lower.clone().overlay(upper.clone()),
        Err(ExternalAgentImportError::Artifact(MemoryArtifactError::CaseCollision(_)))
    ));
    assert!(lower.clone().overlay(other.clone()).expect("first two").overlay(upper.clone()).is_err());
    assert!(lower.overlay(other.overlay(upper).expect("last two")).is_err());
}

fn filters<'a>(sort_key: SortKey, anchor: Option<&'a Anchor>, section: Option<Option<&'a str>>) -> ThreadFilterOptions<'a> {
    ThreadFilterOptions {
        archived_only: false,
        allowed_sources: &[],
        model_providers: None,
        cwd_filters: None,
        repository_identity: None,
        section,
        anchor,
        sort_key,
        sort_direction: SortDirection::Asc,
        search_term: None,
    }
}

#[test]
fn joined_pages_are_the_listing() {
    let mut runtime = StateRuntime::new(RuntimeStateBackend::Sqlite);
    for value in 1..=5u128 {
        let mut metadata = test_thread_metadata(id(value));
        metadata.section = Some(ThreadSection { id: "s".to_string(), name: "S".to_string(), appearance: None });
        metadata.section_position = Some((value % 2) as i64);
        runtime.put_thread_row(row(metadata));
    }
    let mut sizes = Vec::new();
    let mut seen = Vec::new();
    let mut anchor: Option<Anchor> = None;
    loop {
        let page = runtime
            .list_threads(2, filters(SortKey::SectionPosition, anchor.as_ref(), Some(Some("s"))))
            .expect("local");
        sizes.push(page.items.len());
        seen.extend(page.items.iter().map(|thread| thread.id.value));
        anchor = page.next_anchor;
        if anchor.is_none() {
            break;
        }
    }
    assert_eq!(sizes, vec![2, 2, 1]);
    assert_eq!(seen, vec![2, 4, 1, 3, 5]);
}

fn generation_row(path: &str) -> MemoryGenerationRow {
    MemoryGenerationRow {
        generation_id: "g".to_string(),
        completed_watermark: 1,
        published_at: 2,
        artifact_count: 2,
        total_bytes: 0,
        artifact: Some(StoredArtifact { path: path.to_string(), contents: Vec::new() }),
    }
}

#[test]
fn first_path_that_is_not_portable_decides() {
    assert_eq!(
        memory_generation_from_rows(vec![generation_row("a"), generation_row(""), generation_row("../b")]),
        Err(MemoryStoreError::Artifact(MemoryArtifactError::EmptyPath))
    );
    assert_eq!(
        memory_generation_from_rows(vec![generation_row("../b"), generation_row("")]),
        Err(MemoryStoreError::Artifact(MemoryArtifactError::NotPortable))
    );
}

fn folds(paths: &[&str]) -> Vec<Vec<char>> {
    paths.iter().map(|path| path.chars().collect()).collect()
}

#[test]
fn folded_paths_collide_where_they_repeat_or_nest() {
    assert_eq!(first_collision(&folds(&["A", "B", "A/C"])), Some(FoldCollision::Nested(2)));
    assert_eq!(first_collision(&folds(&["A/C", "A", "B", "B"])), Some(FoldCollision::Repeated(3)));
    assert_eq!(first_collision(&folds(&["A/C/D", "A/C"])), Some(FoldCollision::Nested(0)));
    assert_eq!(first_collision(&folds(&["A/C", "A/D", "AB"])), None);
    assert_eq!(first_collision(&[]), None);
    // A character with a mapping of two characters folds like both of them.
    assert!(matches!(
        MemoryArtifactSet::new(vec![artifact("stra\u{df}e", ""), artifact("strasse", "")]),
        Err(MemoryArtifactError::CaseCollision(path)) if path == "strasse"
    ));
}

#[test]
fn values_are_copied() {
    let config = RuntimeStateBackendConfig::Postgresql {
        codex_home: "/home".to_string(),
        namespace: PostgresNamespaceConfig { database_url: "url".to_string(), schema: "schema".to_string() },
    };
    assert_eq!(config.clone(), config);
    let resume = ThreadResumeMetadata { cwd: "/workspace".to_string(), model: Some("model".to_string()) };
    assert_eq!(resume.clone(), resume);
    let query = LogQuery { levels_upper: vec!["INFO".to_string()], search: Some("x".to_string()), limit: Some(3), ..LogQuery::default() };
    assert_eq!(query.clone(), query);
    let materialization = MemoryWorkspaceMaterialization::Replace {
        generation_id: "g".to_string(),
        artifacts: set(vec![artifact("a", "x")]),
    };
    assert_eq!(materialization.clone(), materialization);
    assert_eq!(GoalAccountingOutcome::Unchanged(None).clone(), GoalAccountingOutcome::Unchanged(None));
    let mut coordinator = BackfillCoordinator::new(None);
    let claim = coordinator.try_claim("owner", 60).expect("open");
    assert_eq!(claim.clone(), claim);
    assert!(matches!(claim, BackfillClaimOutcome::Claimed { .. }));
}

#[test]
fn identifiers_are_read_back_from_their_text() {
    let thread = id(0x0123_4567_89ab_cdef_0123_4567_89ab_cdef);
    assert_eq!(thread.text(), "01234567-89ab-cdef-0123-456789abcdef");
    assert_eq!(ThreadId::from_text(&thread.text()), Some(thread));
    assert_eq!(ThreadId::from_text("no identifier"), None);
}
