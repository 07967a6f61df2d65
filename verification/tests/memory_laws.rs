use codex_state::memory_store::memory_generation_from_rows;
use codex_state::memory_store::outputs::is_enabled_thread;
use codex_state::memory_store::outputs::retention_seconds;
use codex_state::memory_store::thread_metadata_from_projection;
use codex_state::memory_store::total_artifact_bytes;
use codex_state::ExternalAgentMemoryImport;
use codex_state::MemoryArtifact;
use codex_state::MemoryArtifactError;
use codex_state::MemoryArtifactSet;
use codex_state::MemoryGenerationRow;
use codex_state::MemoryJobStatus;
use codex_state::MemoryStore;
use codex_state::MemoryStoreError;
use codex_state::MemoryWorkspaceMaterialization;
use codex_state::Phase2JobClaimOutcome;
use codex_state::RuntimeStateBackend;
use codex_state::Stage1JobClaimOutcome;
use codex_state::Stage1StartupClaimParams;
use codex_state::StateRuntime;
use codex_state::StoredArtifact;
use codex_state::ThreadHistoryMode;
use codex_state::ThreadId;
use codex_state::ThreadMetadata;
use codex_state::ThreadProjection;
use codex_state::ThreadRow;

const NOW: i64 = 1_800_000_000;
const WORKER: ThreadId = ThreadId { value: 99 };

fn test_thread_metadata(id: ThreadId) -> ThreadMetadata {
    ThreadMetadata {
        id,
        rollout_path: "rollout.jsonl".to_string(),
        created_at: 1_700_000_000_000,
        updated_at: 1_700_000_000_000,
        recency_at: 1_700_000_000_000,
        source: "cli".to_string(),
        history_mode: ThreadHistoryMode::Legacy,
        thread_source: None,
        agent_nickname: None,
        agent_role: None,
        agent_path: None,
        model_provider: "test-provider".to_string(),
        model: None,
        reasoning_effort: None,
        cwd: "/workspace".to_string(),
        cli_version: "0.0.0".to_string(),
        title: String::new(),
        name: None,
        preview: Some("hello".to_string()),
        sandbox_policy: "read-only".to_string(),
        approval_mode: "on-request".to_string(),
        tokens_used: 0,
        first_user_message: Some("hello".to_string()),
        archived_at: None,
        section: None,
        section_position: None,
        section_entered_at: None,
        is_pinned: false,
        git_sha: None,
        git_branch: None,
        git_origin_url: None,
        repository_identity: None,
    }
}

fn id(value: u128) -> ThreadId {
    ThreadId { value }
}

fn store() -> MemoryStore {
    MemoryStore::new(RuntimeStateBackend::Sqlite)
}

fn claim(store: &mut MemoryStore, thread: u128, source: i64, now: i64) -> Stage1JobClaimOutcome {
    store.try_claim_stage1_job_as(id(thread), WORKER, format!("token-{thread}-{now}"), source, 60, 2, now).expect("claim job")
}

fn is_claimed(outcome: &Stage1JobClaimOutcome) -> bool {
    matches!(outcome, Stage1JobClaimOutcome::Claimed { .. })
}

fn finish(store: &mut MemoryStore, thread: u128, source: i64, now: i64) {
    assert!(is_claimed(&claim(store, thread, source, now)));
    assert_eq!(
        store.mark_stage1_job_succeeded(id(thread), &format!("token-{thread}-{now}"), source, "raw", "summary", None, now),
        Ok(true)
    );
}

fn claim_global(store: &mut MemoryStore, token: &str, now: i64) -> Phase2JobClaimOutcome {
    store.try_claim_global_phase2_job_as(WORKER, token.to_string(), 60, now).expect("claim global job")
}

fn put(runtime: &mut StateRuntime, metadata: ThreadMetadata) {
    runtime.put_thread_row(row(metadata));
}

fn row(metadata: ThreadMetadata) -> ThreadRow {
    ThreadRow {
        metadata,
        memory_mode: "enabled".to_string(),
        memory_mode_ordinal: -1,
        stream_version: 4,
        polluted_at_stream_version: None,
        has_rollout_path: true,
    }
}

fn artifact(path: &str, contents: &str) -> MemoryArtifact {
    MemoryArtifact::new(path, contents.as_bytes().to_vec()).expect("portable")
}

fn set(artifacts: Vec<MemoryArtifact>) -> MemoryArtifactSet {
    MemoryArtifactSet::new(artifacts).expect("set")
}

#[test]
fn live_jobs_are_bounded() {
    let mut store = store();
    assert!(is_claimed(&claim(&mut store, 1, 10, NOW)));
    assert!(is_claimed(&claim(&mut store, 2, 10, NOW)));
    assert_eq!(claim(&mut store, 3, 10, NOW), Stage1JobClaimOutcome::SkippedRunning);
    assert!(is_claimed(&claim(&mut store, 3, 10, NOW + 60)));
}

#[test]
fn live_job_belongs_to_one_token() {
    let mut store = store();
    assert!(is_claimed(&claim(&mut store, 1, 10, NOW)));
    assert_eq!(claim(&mut store, 1, 20, NOW + 59), Stage1JobClaimOutcome::SkippedRunning);
    assert_eq!(store.heartbeat_stage1_job(id(1), "other", 60, NOW), Ok(false));
    assert_eq!(store.heartbeat_stage1_job(id(1), &format!("token-1-{NOW}"), 60, NOW + 59), Ok(true));
    assert_eq!(claim(&mut store, 1, 20, NOW + 60), Stage1JobClaimOutcome::SkippedRunning);
    assert!(is_claimed(&claim(&mut store, 1, 20, NOW + 119)));
}

#[test]
fn strangers_change_nothing() {
    let mut store = store();
    claim(&mut store, 1, 10, NOW);
    let before = store.jobs().at(0).job.clone();
    assert_eq!(store.mark_stage1_job_succeeded(id(1), "other", 10, "r", "s", None, NOW), Ok(false));
    assert_eq!(store.mark_stage1_job_succeeded_no_output(id(1), "other", NOW), Ok(false));
    assert_eq!(store.mark_stage1_job_failed(id(1), "other", "reason", 0, NOW), Ok(false));
    assert_eq!(store.jobs().at(0).job, before);
    assert_eq!(store.outputs().len(), 0);
    assert_eq!(store.mark_global_phase2_job_failed("other", "reason", 0, NOW), Ok(false));
    assert!(store.global_job().is_none());
}

#[test]
fn success_is_up_to_date() {
    let mut store = store();
    finish(&mut store, 1, 10, NOW);
    assert_eq!(claim(&mut store, 1, 10, NOW + 1), Stage1JobClaimOutcome::SkippedUpToDate);
    assert_eq!(claim(&mut store, 1, 9, NOW + 1), Stage1JobClaimOutcome::SkippedUpToDate);
    assert!(is_claimed(&claim(&mut store, 1, 11, NOW + 2)));
    assert_eq!(
        store.mark_stage1_job_succeeded_no_output(id(1), &format!("token-1-{}", NOW + 2), NOW + 3),
        Ok(true)
    );
    assert_eq!(store.outputs().len(), 0);
    assert_eq!(claim(&mut store, 1, 11, NOW + 4), Stage1JobClaimOutcome::SkippedUpToDate);
}

#[test]
fn each_failure_takes_an_attempt() {
    let mut store = store();
    for attempt in 0..3 {
        let now = NOW + attempt;
        assert!(is_claimed(&claim(&mut store, 1, 10, now)));
        assert_eq!(store.jobs().at(0).job.retry_remaining, 3 - attempt);
        assert_eq!(
            store.mark_stage1_job_failed(id(1), &format!("token-1-{now}"), "reason", 0, now),
            Ok(true)
        );
        assert_eq!(store.jobs().at(0).job.last_error.as_deref(), Some("reason"));
    }
    assert_eq!(claim(&mut store, 1, 10, NOW + 9), Stage1JobClaimOutcome::SkippedRetryExhausted);
    assert!(is_claimed(&claim(&mut store, 1, 11, NOW + 9)));
    assert_eq!(store.jobs().at(0).job.retry_remaining, 3);
}

#[test]
fn enqueueing_moves_the_watermark() {
    let mut store = store();
    let watermark = |store: &MemoryStore| store.global_job().as_ref().and_then(|job| job.input_watermark);
    store.enqueue_global_consolidation(5).expect("room");
    assert_eq!(watermark(&store), Some(5));
    store.enqueue_global_consolidation(3).expect("room");
    assert_eq!(watermark(&store), Some(6));
    store.enqueue_global_consolidation(100).expect("room");
    assert_eq!(watermark(&store), Some(100));
    assert!(matches!(claim_global(&mut store, "t", NOW), Phase2JobClaimOutcome::Claimed { input_watermark: 100, .. }));
    store.enqueue_global_consolidation(101).expect("room");
    assert_eq!(store.global_job().as_ref().map(|job| job.status), Some(MemoryJobStatus::Running));
    store.enqueue_global_consolidation(i64::MAX).expect("room");
    let error = store.enqueue_global_consolidation(1).expect_err("no room");
    assert_eq!(error, MemoryStoreError::OutOfRange);
    assert_eq!(error.message(), "memory job value exceeds supported range");
}

#[test]
fn global_job_has_one_owner() {
    let mut unasked = store();
    assert!(matches!(claim_global(&mut unasked, "t", NOW), Phase2JobClaimOutcome::Claimed { input_watermark: 0, .. }));
    let mut store = store();
    store.enqueue_global_consolidation(5).expect("room");
    assert!(matches!(claim_global(&mut store, "t", NOW), Phase2JobClaimOutcome::Claimed { .. }));
    assert_eq!(claim_global(&mut store, "u", NOW + 59), Phase2JobClaimOutcome::SkippedRunning);
    assert!(matches!(claim_global(&mut store, "u", NOW + 60), Phase2JobClaimOutcome::Claimed { .. }));
    assert!(!store.mark_global_phase2_job_succeeded("t", 5, &[], NOW + 60).expect("complete global job"));
    assert_eq!(store.heartbeat_global_phase2_job("t", 60, NOW + 60), Ok(false));
    assert_eq!(store.heartbeat_global_phase2_job("u", 60, NOW + 60), Ok(true));
}

#[test]
fn failed_consolidation_is_retried_and_success_rests() {
    let mut store = store();
    store.enqueue_global_consolidation(5).expect("room");
    claim_global(&mut store, "t", NOW);
    assert_eq!(store.mark_global_phase2_job_failed("t", "reason", 30, NOW), Ok(true));
    assert_eq!(claim_global(&mut store, "u", NOW + 29), Phase2JobClaimOutcome::SkippedRetryUnavailable);
    assert!(matches!(claim_global(&mut store, "u", NOW + 30), Phase2JobClaimOutcome::Claimed { .. }));
    assert!(store.mark_global_phase2_job_succeeded("u", 5, &[], NOW + 40).expect("complete global job"));
    store.enqueue_global_consolidation(9).expect("room");
    let cooldown = 6 * 60 * 60;
    assert_eq!(claim_global(&mut store, "v", NOW + 40 + cooldown - 1), Phase2JobClaimOutcome::SkippedCooldown);
    assert!(matches!(claim_global(&mut store, "v", NOW + 40 + cooldown), Phase2JobClaimOutcome::Claimed { .. }));
    assert!(store.mark_global_phase2_job_succeeded("v", 2, &[], NOW + 41 + cooldown).expect("complete global job"));
    assert_eq!(store.global_job().as_ref().and_then(|job| job.last_success_watermark), Some(5));
}

#[test]
fn completion_marks_what_it_rests_on_and_pruning_spares_it() {
    let mut runtime = StateRuntime::new(RuntimeStateBackend::Sqlite);
    for thread in [1, 2] {
        put(&mut runtime, test_thread_metadata(id(thread)));
        finish(runtime.memories(), thread, NOW - 1_000_000, NOW);
    }
    let selection = runtime.get_phase2_input_selection(1, 36_500, NOW).expect("range");
    assert_eq!(selection.len(), 1);
    assert!(matches!(claim_global(runtime.memories(), "t", NOW), Phase2JobClaimOutcome::Claimed { .. }));
    assert!(runtime.memories().mark_global_phase2_job_succeeded("t", 1, &selection, NOW).expect("complete global job"));
    let marked: Vec<ThreadId> = (0..runtime.memories().outputs().len())
        .map(|i| runtime.memories().outputs().at(i).clone_marks())
        .filter_map(|(thread, marked)| if marked { Some(thread) } else { None })
        .collect();
    assert_eq!(marked, vec![selection[0].thread_id]);
    assert_eq!(runtime.memories().prune_stage1_outputs_for_retention(0, 10, NOW), Ok(1));
    assert_eq!(runtime.list_stage1_outputs_for_global(10).expect("list outputs"), selection);
}

trait Marks {
    fn clone_marks(&self) -> (ThreadId, bool);
}

impl Marks for codex_state::Stage1OutputRow {
    fn clone_marks(&self) -> (ThreadId, bool) {
        (self.thread_id, self.selected_for_phase2)
    }
}

#[test]
fn usage_counts_and_ranks() {
    let mut runtime = StateRuntime::new(RuntimeStateBackend::Sqlite);
    for thread in [1, 2, 3] {
        put(&mut runtime, test_thread_metadata(id(thread)));
        finish(runtime.memories(), thread, NOW - thread as i64, NOW);
    }
    assert_eq!(runtime.memories().record_stage1_output_usage(&[id(3), id(3), id(9)], NOW), Ok(2));
    let best = runtime.get_phase2_input_selection(1, 30, NOW).expect("range");
    assert_eq!(best.iter().map(|output| output.thread_id).collect::<Vec<_>>(), vec![id(3)]);
    let newest = runtime.list_stage1_outputs_for_global(2).expect("list outputs");
    assert_eq!(newest.iter().map(|output| output.thread_id).collect::<Vec<_>>(), vec![id(1), id(2)]);
    assert_eq!(
        runtime.get_phase2_input_selection(1, i64::MAX, i64::MIN + 5),
        Err(MemoryStoreError::OutOfRange)
    );
    assert_eq!(retention_seconds(2), 172_800);
    assert_eq!(retention_seconds(-2), 0);
    assert_eq!(retention_seconds(i64::MAX), i64::MAX);
}

#[test]
fn published_generation_is_active_with_earlier_imports() {
    let mut store = MemoryStore::new(RuntimeStateBackend::Postgresql);
    assert_eq!(store.memory_workspace_materialization().expect("materialization"), MemoryWorkspaceMaterialization::Clear);
    let resource = "extensions/external_agent_import/resources/a/MEMORY.md";
    let memory_import =
        ExternalAgentMemoryImport::new(vec!["a".to_string()], set(vec![artifact(resource, "imported")])).expect("import");
    store.apply_external_agent_import(&memory_import, "g-1".to_string(), NOW).expect("applied");
    store.enqueue_global_consolidation(7).expect("room");
    let watermark = match claim_global(&mut store, "t", NOW) {
        Phase2JobClaimOutcome::Claimed { input_watermark, .. } => input_watermark,
        other => panic!("expected a claim, got {other:?}"),
    };
    let made = set(vec![artifact("MEMORY.md", "made")]);
    assert_eq!(
        store.publish_memory_generation("t", watermark, &[], &made, "g-2".to_string(), NOW + 1),
        Ok(true)
    );
    let active = store.load_active_memory_generation().expect("load generation").expect("published");
    assert_eq!(active.generation_id(), "g-2");
    assert_eq!((active.completed_watermark(), active.published_at()), (watermark, NOW + 1));
    assert_eq!(active.artifacts(), &[artifact("MEMORY.md", "made"), artifact(resource, "imported")]);
    assert!(matches!(
        store.memory_workspace_materialization().expect("materialization"),
        MemoryWorkspaceMaterialization::Replace { .. }
    ));
}

#[test]
fn reset_revokes_everything() {
    let mut store = MemoryStore::new(RuntimeStateBackend::Postgresql);
    claim(&mut store, 1, 10, NOW);
    store.enqueue_global_consolidation(7).expect("room");
    claim_global(&mut store, "t", NOW);
    store
        .import_migrated_memory_generation("g".to_string(), 3, &set(vec![artifact("a", "b")]), NOW)
        .expect("imported");
    store.clear_memory_data().expect("clear memory");
    assert_eq!(store.load_active_memory_generation().expect("load generation"), None);
    assert_eq!(store.heartbeat_stage1_job(id(1), &format!("token-1-{NOW}"), 60, NOW), Ok(false));
    assert_eq!(store.heartbeat_global_phase2_job("t", 60, NOW), Ok(false));
    assert!(is_claimed(&claim(&mut store, 1, 10, NOW)));
}

#[test]
fn pollution_lasts_until_the_next_record() {
    let mut runtime = StateRuntime::new(RuntimeStateBackend::Postgresql);
    put(&mut runtime, test_thread_metadata(id(1)));
    assert_eq!(runtime.mark_thread_memory_mode_polluted(id(1), NOW), Ok(true));
    assert_eq!(runtime.mark_thread_memory_mode_polluted(id(1), NOW), Ok(false));
    assert_eq!(runtime.mark_thread_memory_mode_polluted(id(2), NOW), Ok(false));
    let mut polluted = row(test_thread_metadata(id(1)));
    polluted.polluted_at_stream_version = Some(4);
    assert!(!is_enabled_thread(&polluted));
    polluted.memory_mode_ordinal = 4;
    assert!(is_enabled_thread(&polluted));
    polluted.memory_mode = "disabled".to_string();
    assert!(!is_enabled_thread(&polluted));
}

#[test]
fn startup_claims_are_bounded() {
    let mut runtime = StateRuntime::new(RuntimeStateBackend::Sqlite);
    for thread in 1..=5u128 {
        let mut metadata = test_thread_metadata(id(thread));
        metadata.updated_at = (NOW - 7_200 - thread as i64) * 1_000;
        put(&mut runtime, metadata);
    }
    let params = Stage1StartupClaimParams {
        scan_limit: 4,
        max_claimed: 2,
        max_age_days: 1,
        min_rollout_idle_hours: 1,
        allowed_sources: &[],
        lease_seconds: 60,
    };
    let claims = runtime.claim_stage1_jobs_for_startup(id(1), params, NOW * 1_000).expect("claim at startup");
    assert_eq!(claims.iter().map(|claim| claim.thread.id).collect::<Vec<_>>(), vec![id(2), id(3)]);
    assert_ne!(claims[0].ownership_token, claims[1].ownership_token);
}

fn generation_row(path: Option<&str>, count: i32, bytes: i64) -> MemoryGenerationRow {
    MemoryGenerationRow {
        generation_id: "g".to_string(),
        completed_watermark: 1,
        published_at: 2,
        artifact_count: count,
        total_bytes: bytes,
        artifact: path.map(|path| StoredArtifact { path: path.to_string(), contents: b"xy".to_vec() }),
    }
}

#[test]
fn stored_generations_are_checked() {
    assert_eq!(memory_generation_from_rows(Vec::new()), Ok(None));
    let read = memory_generation_from_rows(vec![generation_row(Some("a"), 2, 4), generation_row(Some("b"), 2, 4)])
        .expect("consistent")
        .expect("active");
    assert_eq!(read.artifacts().len(), 2);
    let count = memory_generation_from_rows(vec![generation_row(Some("a"), 2, 2)]).expect_err("count");
    assert_eq!(count.message(), "active Memory Generation artifact count does not match its contents");
    let bytes = memory_generation_from_rows(vec![generation_row(Some("a"), 1, 3)]).expect_err("bytes");
    assert_eq!(bytes.message(), "active Memory Generation byte count does not match its contents");
    let path = memory_generation_from_rows(vec![generation_row(Some("../a"), 1, 2)]).expect_err("path");
    assert_eq!(path, MemoryStoreError::Artifact(MemoryArtifactError::NotPortable));
    assert_eq!(total_artifact_bytes(&set(vec![artifact("a", "xy"), artifact("b", "z")])), Ok(3));
    for error in [
        MemoryStoreError::MissingWatermark,
        MemoryStoreError::TooManyArtifacts,
        MemoryStoreError::GenerationTooLarge,
    ] {
        assert!(!error.message().is_empty());
    }
}

#[test]
fn projections_become_metadata() {
    let projection = |history_mode, name: Option<&str>| ThreadProjection {
        thread_id: id(1),
        rollout_path: None,
        created_at: 1,
        updated_at: 2,
        recency_at: 3,
        source: "cli".to_string(),
        history_mode,
        thread_source: None,
        agent_nickname: None,
        agent_role: None,
        agent_path: None,
        model_provider: "p".to_string(),
        model: None,
        reasoning_effort: None,
        cwd: "/".to_string(),
        cli_version: "1".to_string(),
        name: name.map(str::to_string),
        preview: "preview".to_string(),
        permission_profile: "{}".to_string(),
        approval_mode: "never".to_string(),
        total_tokens: Some(-5),
        first_user_message: None,
        archived_at: None,
        is_pinned: true,
        git_commit_hash: None,
        git_branch: None,
        git_repository_url: None,
    };
    let legacy = thread_metadata_from_projection(projection(ThreadHistoryMode::Legacy, Some("name")));
    assert_eq!((legacy.title.as_str(), legacy.name, legacy.tokens_used), ("name", None, 0));
    let unnamed = thread_metadata_from_projection(projection(ThreadHistoryMode::Legacy, None));
    assert_eq!((unnamed.title.as_str(), unnamed.rollout_path.as_str()), ("preview", ""));
    let paginated = thread_metadata_from_projection(projection(ThreadHistoryMode::Paginated, Some("name")));
    assert_eq!((paginated.title.as_str(), paginated.name.as_deref()), ("preview", Some("name")));
}
