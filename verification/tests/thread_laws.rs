use codex_state::runtime::deletion::sorted_ids;
use codex_state::runtime::metadata::allocate_thread_timestamp;
use codex_state::runtime::metadata::metadata_preview;
use codex_state::runtime::section_order::middle_position;
use codex_state::runtime::section_order::next_position;
use codex_state::Anchor;
use codex_state::DirectionalThreadSpawnEdgeStatus;
use codex_state::LogEntry;
use codex_state::LogQuery;
use codex_state::RuntimeStateBackend;
use codex_state::SectionMoveError;
use codex_state::SortDirection;
use codex_state::SortKey;
use codex_state::SpawnedBy;
use codex_state::StateRuntime;
use codex_state::ThreadFilterOptions;
use codex_state::ThreadGoalStatus;
use codex_state::ThreadHistoryMode;
use codex_state::ThreadId;
use codex_state::ThreadMetadata;
use codex_state::ThreadRelationError;
use codex_state::ThreadRelationFilter;
use codex_state::ThreadRow;
use codex_state::ThreadSection;
use codex_state::ThreadSectionAppearance;
use codex_state::ThreadSectionError;
use codex_state::ThreadStoreError;

fn test_thread_metadata(id: ThreadId) -> ThreadMetadata {
    ThreadMetadata {
        id,
        rollout_path: "rollout.jsonl".to_string(),
        created_at: 1_700_000_000_000,
        updated_at: 1_700_000_000_000,
        recency_at: 1_700_000_000_000,
        source: "cli".to_string(),
        history_mode: ThreadHistoryMode::Legacy,
        thread_source: None,
        agent_nickname: None,
        agent_role: None,
        agent_path: None,
        model_provider: "test-provider".to_string(),
        model: None,
        reasoning_effort: None,
        cwd: "/workspace".to_string(),
        cli_version: "0.0.0".to_string(),
        title: String::new(),
        name: None,
        preview: Some("hello".to_string()),
        sandbox_policy: "read-only".to_string(),
        approval_mode: "on-request".to_string(),
        tokens_used: 0,
        first_user_message: Some("hello".to_string()),
        archived_at: None,
        section: None,
        section_position: None,
        section_entered_at: None,
        is_pinned: false,
        git_sha: None,
        git_branch: None,
        git_origin_url: None,
        repository_identity: None,
    }
}

fn id(value: u128) -> ThreadId {
    ThreadId { value }
}

fn section(name: &str) -> ThreadSection {
    ThreadSection { id: name.to_string(), name: name.to_uppercase(), appearance: None }
}

fn put(runtime: &mut StateRuntime, metadata: ThreadMetadata) {
    runtime.put_thread_row(ThreadRow {
        metadata,
        memory_mode: "enabled".to_string(),
        memory_mode_ordinal: -1,
        stream_version: 0,
        polluted_at_stream_version: None,
        has_rollout_path: true,
    });
}

fn runtime_with_threads(backend: RuntimeStateBackend, count: u128) -> StateRuntime {
    let mut runtime = StateRuntime::new(backend);
    for value in 1..=count {
        put(&mut runtime, test_thread_metadata(id(value)));
    }
    runtime
}

fn order_in(runtime: &StateRuntime, section: &str, count: u128) -> Vec<u128> {
    let mut placed = Vec::new();
    for value in 1..=count {
        if let Some(thread) = runtime.get_thread(id(value)).expect("local") {
            if thread.section.as_ref().map(|section| section.id.as_str()) == Some(section) {
                placed.push((thread.section_position, value));
            }
        }
    }
    placed.sort();
    placed.into_iter().map(|(_, value)| value).collect()
}

fn filters(sort_key: SortKey) -> ThreadFilterOptions<'static> {
    ThreadFilterOptions {
        archived_only: false,
        allowed_sources: &[],
        model_providers: None,
        cwd_filters: None,
        repository_identity: None,
        section: None,
        anchor: None,
        sort_key,
        sort_direction: SortDirection::Desc,
        search_term: None,
    }
}

#[test]
fn moved_thread_gets_its_place() {
    let mut runtime = runtime_with_threads(RuntimeStateBackend::Sqlite, 4);
    runtime.create_thread_section(section("s")).expect("new section");
    for value in [1, 2, 3] {
        assert_eq!(runtime.move_thread_to_section_at(id(value), Some("s"), None, 10), Ok(true));
    }
    assert_eq!(order_in(&runtime, "s", 4), vec![1, 2, 3]);
    assert_eq!(runtime.move_thread_to_section_at(id(4), Some("s"), Some(id(2)), 20), Ok(true));
    assert_eq!(order_in(&runtime, "s", 4), vec![1, 4, 2, 3]);
    assert_eq!(runtime.move_thread_to_section_at(id(3), Some("s"), Some(id(1)), 30), Ok(true));
    assert_eq!(order_in(&runtime, "s", 4), vec![3, 1, 4, 2]);
    assert_eq!(runtime.move_thread_to_section_at(id(3), None, None, 40), Ok(true));
    assert_eq!(order_in(&runtime, "s", 4), vec![1, 4, 2]);
    let places = runtime.get_thread_section_ordering(&[id(3), id(1)]);
    assert_eq!(places.iter().map(|place| place.thread_id).collect::<Vec<_>>(), vec![id(1), id(3)]);
    assert_eq!((places[1].position, places[1].entered_at), (None, None));
}

#[test]
fn sections_stay_movable_when_positions_are_crowded() {
    let mut runtime = runtime_with_threads(RuntimeStateBackend::Sqlite, 64);
    runtime.create_thread_section(section("s")).expect("new section");
    runtime.move_thread_to_section_at(id(1), Some("s"), None, 1).expect("room");
    runtime.move_thread_to_section_at(id(2), Some("s"), None, 1).expect("room");
    for value in 3..=64 {
        // Always into the same gap, which is soon too narrow.
        assert_eq!(runtime.move_thread_to_section_at(id(value), Some("s"), Some(id(2)), 1), Ok(true));
    }
    let mut expected: Vec<u128> = vec![1];
    expected.extend(3..=64);
    expected.push(2);
    assert_eq!(order_in(&runtime, "s", 64), expected);
}

#[test]
fn positions_are_in_the_middle_or_behind() {
    assert_eq!(middle_position(Some(10), 20), Some(15));
    assert_eq!(middle_position(Some(10), 11), None);
    assert_eq!(middle_position(None, 9), Some(4));
    assert_eq!(middle_position(None, 1), None);
    assert_eq!(middle_position(Some(i64::MIN), i64::MAX), Some(-1));
    assert_eq!(next_position(None), Some(1_000_000));
    assert_eq!(next_position(Some(5)), Some(1_000_005));
    assert_eq!(next_position(Some(i64::MAX)), None);
}

#[test]
fn failed_moves_change_nothing_and_say_why() {
    let mut runtime = runtime_with_threads(RuntimeStateBackend::Sqlite, 2);
    runtime.create_thread_section(section("s")).expect("new section");
    runtime.move_thread_to_section_at(id(1), Some("s"), None, 1).expect("room");
    let before = runtime.get_thread(id(1)).expect("local");
    let missing = runtime.move_thread_to_section_at(id(1), Some("t"), None, 2).expect_err("no section");
    assert_eq!(missing, SectionMoveError::NoSection("t".to_string()));
    assert_eq!(missing.message(), "section t does not exist");
    let itself = runtime.move_thread_to_section_at(id(1), Some("s"), Some(id(1)), 2).expect_err("itself");
    assert_eq!(itself.message(), "thread 00000000-0000-0000-0000-000000000001 cannot be moved before itself");
    let elsewhere = runtime.move_thread_to_section_at(id(1), Some("s"), Some(id(2)), 2).expect_err("elsewhere");
    assert_eq!(elsewhere.message(), "before thread 00000000-0000-0000-0000-000000000002 is not in section s");
    assert_eq!(runtime.get_thread(id(1)).expect("local"), before);
    assert_eq!(
        SectionMoveError::NoPositions("s".to_string()).message(),
        "section s has no remaining thread positions"
    );
}

#[test]
fn positions_at_the_end_of_their_range_are_spread_out() {
    let mut runtime = runtime_with_threads(RuntimeStateBackend::Sqlite, 2);
    runtime.create_thread_section(section("s")).expect("new section");
    let mut last = test_thread_metadata(id(1));
    last.section = Some(section("s"));
    last.section_position = Some(i64::MAX);
    put(&mut runtime, last);
    assert_eq!(runtime.move_thread_to_section_at(id(2), Some("s"), None, 1), Ok(true));
    assert_eq!(order_in(&runtime, "s", 2), vec![1, 2]);
}

#[test]
fn sections_are_renamed_listed_and_deleted() {
    let mut runtime = runtime_with_threads(RuntimeStateBackend::Sqlite, 1);
    for name in ["b", "a", "c"] {
        runtime.create_thread_section(section(name)).expect("new section");
    }
    let again = runtime.create_thread_section(section("a")).expect_err("known section");
    assert_eq!(again, ThreadSectionError::Exists("a".to_string()));
    assert_eq!(again.message(), "section a already exists");
    runtime.move_thread_to_section_at(id(1), Some("a"), None, 1).expect("room");

    let mut seen = Vec::new();
    let mut cursor: Option<String> = None;
    loop {
        let page = runtime.list_thread_sections(cursor.as_deref(), 2).expect("limit");
        seen.extend(page.sections.iter().map(|section| section.id.clone()));
        cursor = page.next_cursor;
        if cursor.is_none() {
            break;
        }
    }
    assert_eq!(seen, vec!["a".to_string(), "b".to_string(), "c".to_string()]);

    let appearance = ThreadSectionAppearance { json: "{}".to_string() };
    let renamed = runtime
        .rename_thread_section("a", "renamed", Some(Some(appearance.clone())))
        .expect("known section");
    assert_eq!(renamed.appearance, Some(appearance));
    let thread = runtime.get_thread(id(1)).expect("local").expect("thread");
    assert_eq!(thread.section, Some(renamed.clone()));
    assert_eq!(runtime.get_thread_section("a"), Some(renamed));
    assert_eq!(runtime.rename_thread_section("z", "renamed", None), None);

    assert!(runtime.delete_thread_section("a"));
    assert!(!runtime.delete_thread_section("a"));
    let thread = runtime.get_thread(id(1)).expect("local").expect("thread");
    assert_eq!((thread.section, thread.section_position, thread.section_entered_at), (None, None, None));
    let most = usize::try_from(i64::MAX).expect("64 bits") - 1;
    assert!(runtime.list_thread_sections(None, most).is_ok());
    assert_eq!(runtime.list_thread_sections(None, most + 1), Err(ThreadSectionError::LimitOutOfRange));
    assert_eq!(runtime.list_thread_sections(None, usize::MAX), Err(ThreadSectionError::LimitOutOfRange));
    assert_eq!(ThreadSectionError::LimitOutOfRange.message(), "section page limit exceeds supported range");
}

fn family() -> StateRuntime {
    // 1 spawned 2 and 3, 2 spawned 4, 4 spawned 5; 6 stands alone.
    let mut runtime = runtime_with_threads(RuntimeStateBackend::Sqlite, 6);
    for (parent, child) in [(1, 3), (1, 2), (2, 4), (4, 5)] {
        runtime
            .upsert_thread_spawn_edge(id(parent), id(child), DirectionalThreadSpawnEdgeStatus::Open)
            .expect("local");
    }
    runtime
}

#[test]
fn descendants_are_listed_nearest_first_and_once() {
    let runtime = family();
    assert_eq!(runtime.list_thread_spawn_children(id(1)), vec![id(2), id(3)]);
    assert_eq!(runtime.list_thread_spawn_descendants(id(1)), vec![id(2), id(3), id(4), id(5)]);
    assert_eq!(runtime.list_thread_spawn_descendants(id(5)), Vec::new());
}

#[test]
fn circles_of_spawned_threads_end() {
    let mut runtime = family();
    runtime
        .upsert_thread_spawn_edge(id(5), id(1), DirectionalThreadSpawnEdgeStatus::Open)
        .expect("local");
    assert_eq!(runtime.list_thread_spawn_descendants(id(1)), vec![id(2), id(3), id(4), id(5)]);
    assert_eq!(runtime.list_thread_spawn_descendants(id(4)), vec![id(5), id(1), id(2), id(3)]);
}

#[test]
fn thread_has_one_parent() {
    let mut runtime = family();
    runtime
        .upsert_thread_spawn_edge(id(6), id(4), DirectionalThreadSpawnEdgeStatus::Open)
        .expect("local");
    assert_eq!(runtime.list_thread_spawn_children(id(2)), Vec::new());
    assert_eq!(runtime.list_thread_spawn_children(id(6)), vec![id(4)]);
    assert_eq!(runtime.list_thread_spawn_children(id(1)), vec![id(2), id(3)]);
    runtime.insert_thread_spawn_edge_if_absent(id(3), id(4));
    assert_eq!(runtime.list_thread_spawn_children(id(3)), Vec::new());
}

#[test]
fn status_narrows_children() {
    let mut runtime = family();
    runtime.set_thread_spawn_edge_status(id(2), DirectionalThreadSpawnEdgeStatus::Closed);
    assert_eq!(
        runtime.list_thread_spawn_children_with_status(id(1), DirectionalThreadSpawnEdgeStatus::Open),
        vec![id(3)]
    );
    assert_eq!(
        runtime.list_thread_spawn_descendants_with_status(id(1), DirectionalThreadSpawnEdgeStatus::Open),
        vec![id(3)]
    );
    assert_eq!(
        runtime.list_thread_spawn_descendants_with_status(id(1), DirectionalThreadSpawnEdgeStatus::Closed),
        vec![id(2)]
    );
    assert_eq!(DirectionalThreadSpawnEdgeStatus::Closed.as_str(), "closed");
}

#[test]
fn edges_in_a_shared_database_need_both_threads() {
    let mut runtime = runtime_with_threads(RuntimeStateBackend::Postgresql, 1);
    let error = runtime
        .upsert_thread_spawn_edge(id(1), id(2), DirectionalThreadSpawnEdgeStatus::Open)
        .expect_err("unknown thread");
    assert_eq!(error, ThreadRelationError::NoCanonicalThread);
    assert_eq!(
        error.message(),
        "Runtime State could not complete the `upsert thread spawn edge` operation; verify canonical thread state, then retry"
    );
    assert_eq!(runtime.find_thread_spawn_child_by_path(id(1), "/a"), Err(ThreadRelationError::LocalOnly));
}

#[test]
fn spawned_threads_are_found_by_path() {
    let mut runtime = family();
    for (value, path) in [(2, "/a"), (4, "/b"), (5, "/b"), (6, "/a")] {
        let mut metadata = test_thread_metadata(id(value));
        metadata.agent_path = Some(path.to_string());
        put(&mut runtime, metadata);
    }
    assert_eq!(runtime.find_thread_spawn_child_by_path(id(1), "/a"), Ok(Some(id(2))));
    assert_eq!(runtime.find_thread_spawn_child_by_path(id(1), "/b"), Ok(None));
    let error = runtime.find_thread_spawn_descendant_by_path(id(1), "/b").expect_err("two agents");
    assert_eq!(error.message(), "multiple agents found for canonical path `/b`");
}

fn log_of(thread: ThreadId) -> LogEntry {
    LogEntry {
        ts: 1,
        ts_nanos: 0,
        level: "INFO".to_string(),
        target: "t".to_string(),
        message: Some("m".to_string()),
        feedback_log_body: None,
        thread_id: Some(uuid::Uuid::from_u128(thread.value).to_string()),
        process_uuid: None,
        module: None,
        file: None,
        line: None,
    }
}

#[test]
fn deleted_threads_leave_nothing() {
    let mut runtime = family();
    for value in 1..=6 {
        runtime.insert_log(&log_of(id(value))).expect("local");
        runtime
            .thread_goals()
            .replace_thread_goal(id(value), "goal", ThreadGoalStatus::Active, None)
            .expect("open store");
    }
    let deleted = runtime.delete_thread_spawn_subtree_strict_at(id(2), 100).expect("deleted");
    assert_eq!(deleted, vec![id(2), id(4), id(5)]);
    for value in 1..=6 {
        let gone = deleted.contains(&id(value));
        assert_eq!(runtime.get_thread(id(value)).expect("local").is_none(), gone);
        assert_eq!(runtime.thread_goals().get_thread_goal(id(value)).expect("open").is_none(), gone);
        let query = LogQuery {
            thread_ids: vec![uuid::Uuid::from_u128(value).to_string()],
            ..LogQuery::default()
        };
        assert_eq!(runtime.query_logs(&query).expect("query logs").is_empty(), gone);
    }
    assert_eq!(runtime.list_thread_spawn_descendants(id(1)), vec![id(3)]);
    assert_eq!(runtime.delete_threads_strict_at(&[], 100).expect("nothing"), 0);
    assert_eq!(runtime.delete_threads_strict_at(&[id(3), id(3), id(9)], 100).expect("one"), 1);
}

#[test]
fn failed_deletion_can_be_repeated() {
    let mut runtime = family();
    runtime.thread_goals().close();
    let error = runtime.delete_thread_spawn_subtree_strict_at(id(2), 100).expect_err("closed goals");
    assert_eq!(
        error.message(),
        "Runtime State could not complete the `delete thread goal` operation; verify goal persistence health, then retry"
    );
    assert_eq!(runtime.thread_spawn_subtree(id(2)), vec![id(2), id(4), id(5)]);
    assert!(runtime.get_thread(id(5)).expect("local").is_some());
}

#[test]
fn subtrees_of_a_shared_database_are_listed_by_identifier() {
    let mut runtime = runtime_with_threads(RuntimeStateBackend::Postgresql, 4);
    for (parent, child) in [(4, 3), (3, 1), (4, 2)] {
        runtime
            .upsert_thread_spawn_edge(id(parent), id(child), DirectionalThreadSpawnEdgeStatus::Open)
            .expect("known threads");
    }
    assert_eq!(runtime.thread_spawn_subtree(id(4)), vec![id(4), id(1), id(2), id(3)]);
    assert_eq!(sorted_ids(&[id(3), id(1), id(3)]), vec![id(1), id(3)]);
}

#[test]
fn pages_are_complete() {
    let mut runtime = StateRuntime::new(RuntimeStateBackend::Sqlite);
    for value in 1..=7u128 {
        let mut metadata = test_thread_metadata(id(value));
        metadata.recency_at = 1_700_000_000_000 + (value % 3) as i64;
        put(&mut runtime, metadata);
    }
    let mut seen = Vec::new();
    let mut anchor: Option<Anchor> = None;
    loop {
        let page = runtime
            .list_threads(2, ThreadFilterOptions { anchor: anchor.as_ref(), ..filters(SortKey::RecencyAt) })
            .expect("local");
        assert!(page.items.len() <= 2);
        seen.extend(page.items.iter().map(|thread| thread.id.value));
        anchor = page.next_anchor;
        if anchor.is_none() {
            break;
        }
    }
    assert_eq!(seen, vec![5, 2, 7, 4, 1, 6, 3]);
}

#[test]
fn listings_show_what_is_asked_for() {
    let mut runtime = family();
    let mut archived = test_thread_metadata(id(6));
    archived.archived_at = Some(1);
    archived.title = "found".to_string();
    put(&mut runtime, archived);
    let mut silent = test_thread_metadata(id(3));
    silent.preview = None;
    put(&mut runtime, silent);
    let listed = |filters| -> Vec<u128> {
        let page = runtime.list_threads(10, filters).expect("local");
        page.items.iter().map(|thread| thread.id.value).collect()
    };
    assert_eq!(listed(filters(SortKey::RecencyAt)), vec![5, 4, 2, 1]);
    assert_eq!(listed(ThreadFilterOptions { archived_only: true, ..filters(SortKey::RecencyAt) }), vec![6]);
    assert_eq!(
        listed(ThreadFilterOptions { archived_only: true, search_term: Some("oun"), ..filters(SortKey::RecencyAt) }),
        vec![6]
    );
    assert_eq!(
        listed(ThreadFilterOptions { archived_only: true, search_term: Some("lost"), ..filters(SortKey::RecencyAt) }),
        Vec::<u128>::new()
    );
    let children = runtime
        .list_threads_by_parent(10, id(1), filters(SortKey::RecencyAt))
        .expect("local");
    assert_eq!(
        children.parent_thread_ids,
        vec![
            SpawnedBy { thread_id: id(3), parent_thread_id: id(1) },
            SpawnedBy { thread_id: id(2), parent_thread_id: id(1) },
        ]
    );
    let descendants = runtime
        .list_threads_by_relation(10, ThreadRelationFilter::DescendantsOf(id(2)), filters(SortKey::RecencyAt))
        .expect("local");
    assert_eq!(descendants.items.iter().map(|thread| thread.id.value).collect::<Vec<_>>(), vec![5, 4]);
    assert_eq!(
        runtime.find_thread_by_exact_title("found", &[], None, true, None).expect("local").map(|thread| thread.id),
        Some(id(6))
    );
    assert_eq!(runtime.find_thread_by_exact_title("found", &[], None, false, None), Ok(None));
    assert_eq!(
        runtime.find_rollout_path_by_id(id(6), Some(true)),
        Some("rollout.jsonl".to_string())
    );
    assert_eq!(runtime.find_rollout_path_by_id(id(6), Some(false)), None);
}

#[test]
fn times_are_given_out_once() {
    let mut mark = 0;
    assert_eq!(allocate_thread_timestamp(&mut mark, 5_000), Ok(5_000));
    assert_eq!(allocate_thread_timestamp(&mut mark, 5_000), Ok(5_001));
    assert_eq!(allocate_thread_timestamp(&mut mark, 4_500), Ok(5_002));
    assert_eq!(allocate_thread_timestamp(&mut mark, 4_002), Ok(4_002));
    assert_eq!(mark, 5_002);
    assert_eq!(allocate_thread_timestamp(&mut mark, i64::MAX), Err(ThreadStoreError::TimestampOutOfRange));
    assert_eq!(mark, i64::MAX);
}

#[test]
fn recency_grows() {
    let mut runtime = runtime_with_threads(RuntimeStateBackend::Sqlite, 1);
    assert_eq!(runtime.touch_thread_recency_at(id(1), 1_000), Ok(true));
    let first = runtime.get_thread(id(1)).expect("local").expect("thread").recency_at;
    assert_eq!(first, 1_700_000_000_001);
    assert_eq!(runtime.touch_thread_recency_at(id(1), 1_800_000_000_000), Ok(true));
    assert_eq!(runtime.get_thread(id(1)).expect("local").expect("thread").recency_at, 1_800_000_000_000);
    assert_eq!(runtime.touch_thread_recency_at(id(2), 1_800_000_000_000), Ok(false));
}

#[test]
fn metadata_is_stored_and_changed() {
    let mut runtime = StateRuntime::new(RuntimeStateBackend::Sqlite);
    let mut metadata = test_thread_metadata(id(1));
    metadata.preview = None;
    metadata.archived_at = Some(1_234);
    metadata.is_pinned = true;
    assert_eq!(runtime.insert_thread_if_absent(&metadata, Some(id(9))), Ok(true));
    let stored = runtime.get_thread(id(1)).expect("local").expect("thread");
    assert_eq!(stored.preview.as_deref(), Some("hello"));
    assert_eq!(stored.archived_at, Some(1_000));
    assert!(stored.is_pinned);
    assert_eq!(runtime.list_thread_spawn_children(id(9)), vec![id(1)]);
    assert_eq!(runtime.insert_thread_if_absent(&metadata, Some(id(8))), Ok(false));
    assert_eq!(runtime.list_thread_spawn_children(id(8)), Vec::new());

    assert_eq!(runtime.update_thread_title(id(1), "title"), Ok(true));
    assert_eq!(runtime.update_thread_name(id(1), Some("name")), Ok(true));
    assert!(runtime.update_thread_pin(id(1), false));
    assert_eq!(runtime.set_thread_memory_mode(id(1), "disabled"), Ok(true));
    assert_eq!(runtime.touch_thread_updated_at(id(1), 1_900_000_000_000), Ok(true));
    assert!(!runtime.set_thread_preview_if_empty(id(1), "other"));
    assert!(!runtime.set_thread_preview_if_empty(id(1), "   "));
    assert!(runtime.mark_thread_paginated(id(1)));
    assert!(!runtime.mark_thread_paginated(id(1)));
    let stored = runtime.get_thread(id(1)).expect("local").expect("thread");
    assert_eq!((stored.title.as_str(), stored.name.as_deref(), stored.updated_at), ("title", Some("name"), 1_900_000_000_000));
    assert_eq!(stored.history_mode, ThreadHistoryMode::Paginated);
    assert_eq!(runtime.get_thread_memory_mode(id(1)), Ok(Some("disabled".to_string())));
    assert_eq!(runtime.update_thread_title(id(2), "title"), Ok(false));
    let resumed = runtime.get_thread_resume_metadata(id(1)).expect("thread");
    assert_eq!((resumed.cwd.as_str(), resumed.model), ("/workspace", None));
}

#[test]
fn empty_previews_are_filled_once() {
    let mut runtime = StateRuntime::new(RuntimeStateBackend::Postgresql);
    let mut metadata = test_thread_metadata(id(1));
    metadata.preview = None;
    metadata.first_user_message = None;
    assert_eq!(metadata_preview(&metadata), "");
    put(&mut runtime, metadata);
    assert!(runtime.set_thread_preview_if_empty(id(1), "  first  "));
    assert!(!runtime.set_thread_preview_if_empty(id(1), "second"));
}

#[test]
fn local_operations_are_refused_in_a_shared_database() {
    let mut runtime = runtime_with_threads(RuntimeStateBackend::Postgresql, 1);
    assert_eq!(runtime.get_thread(id(1)), Err(ThreadStoreError::LocalOnly));
    assert_eq!(runtime.upsert_thread(&test_thread_metadata(id(1))), Err(ThreadStoreError::LocalOnly));
    assert_eq!(runtime.list_threads(1, filters(SortKey::CreatedAt)).err(), Some(ThreadStoreError::LocalOnly));
    assert_eq!(
        runtime.list_thread_ids(1, None, SortKey::CreatedAt, &[], None, false).err(),
        Some(ThreadStoreError::LocalOnly)
    );
    assert!(!ThreadStoreError::LocalOnly.message().is_empty());
    assert!(!ThreadStoreError::TimestampOutOfRange.message().is_empty());
}
