use codex_state::runtime::query::push_list_threads_query;
use codex_state::RuntimeStateBackend;
use codex_state::SortDirection;
use codex_state::SortKey;
use codex_state::SqlBind;
use codex_state::SqlQuery;
use codex_state::StateRuntime;
use codex_state::ThreadFilterOptions;
use codex_state::ThreadHistoryMode;
use codex_state::ThreadId;
use codex_state::ThreadMetadata;
use codex_state::ThreadSection;
use sqlx::Connection;
use sqlx::Row;

const PINNED_THREAD_SECTION_ID: &str = "pinned";
const PINNED_THREAD_SECTION_NAME: &str = "Pinned";
const CUSTOM_THREAD_SECTION_ID: &str = "01984de2-8f74-7c91-a3b2-5c5e937cf317";

fn thread_id(text: &str) -> ThreadId {
    ThreadId { value: uuid::Uuid::parse_str(text).expect("valid thread id").as_u128() }
}

fn test_thread_metadata(id: ThreadId) -> ThreadMetadata {
    ThreadMetadata {
        id,
        rollout_path: "rollout.jsonl".to_string(),
        created_at: 1_700_000_000_000,
        updated_at: 1_700_000_000_000,
        recency_at: 1_700_000_000_000,
        source: "cli".to_string(),
        history_mode: ThreadHistoryMode::Legacy,
        thread_source: None,
        agent_nickname: None,
        agent_role: None,
        agent_path: None,
        model_provider: "test-provider".to_string(),
        model: None,
        reasoning_effort: None,
        cwd: "/workspace".to_string(),
        cli_version: "0.0.0".to_string(),
        title: String::new(),
        name: None,
        preview: Some("hello".to_string()),
        sandbox_policy: "read-only".to_string(),
        approval_mode: "on-request".to_string(),
        tokens_used: 0,
        first_user_message: Some("hello".to_string()),
        archived_at: None,
        section: None,
        section_position: None,
        section_entered_at: None,
        is_pinned: false,
        git_sha: None,
        git_branch: None,
        git_origin_url: None,
        repository_identity: None,
    }
}

const SCHEMA: [&str; 6] = [
    "CREATE TABLE thread_sections (id TEXT PRIMARY KEY, name TEXT NOT NULL, appearance TEXT)",
    "CREATE TABLE thread_spawn_edges (parent_thread_id TEXT NOT NULL, child_thread_id TEXT PRIMARY KEY, status TEXT NOT NULL)",
    "CREATE TABLE threads (
        id TEXT PRIMARY KEY, rollout_path TEXT NOT NULL, created_at_ms INTEGER NOT NULL, updated_at_ms INTEGER NOT NULL,
        recency_at_ms INTEGER NOT NULL, source TEXT NOT NULL, history_mode TEXT NOT NULL, thread_source TEXT,
        agent_nickname TEXT, agent_role TEXT, agent_path TEXT, model_provider TEXT NOT NULL, model TEXT,
        reasoning_effort TEXT, cwd TEXT NOT NULL, cli_version TEXT NOT NULL, title TEXT NOT NULL, name TEXT,
        preview TEXT NOT NULL, sandbox_policy TEXT NOT NULL, approval_mode TEXT NOT NULL, tokens_used INTEGER NOT NULL,
        first_user_message TEXT NOT NULL, archived INTEGER NOT NULL, archived_at INTEGER, thread_section_id TEXT,
        section_position INTEGER, section_entered_at_ms INTEGER, git_sha TEXT, git_branch TEXT, git_origin_url TEXT,
        repository_identity TEXT, git_origin_url_is_explicit INTEGER NOT NULL
    )",
    "CREATE INDEX idx_threads_section_recency_at_ms ON threads (archived, thread_section_id, recency_at_ms DESC, id DESC)",
    "CREATE INDEX idx_threads_section_position ON threads (archived, thread_section_id, section_position, id)",
    "CREATE INDEX idx_threads_updated_at_ms ON threads (archived, updated_at_ms DESC)",
];

/// Runs a query in a database that holds the given threads, and reads one column of text.
fn run_in_sqlite(query: &SqlQuery, threads: &[ThreadMetadata], column: &str) -> Vec<String> {
    let runtime = tokio::runtime::Builder::new_current_thread()
        .enable_all()
        .build()
        .expect("runtime");
    runtime.block_on(async {
        let mut connection = sqlx::SqliteConnection::connect("sqlite::memory:")
            .await
            .expect("database in memory");
        for statement in SCHEMA {
            sqlx::query(statement)
                .execute(&mut connection)
                .await
                .expect("schema");
        }
        for thread in threads {
            sqlx::query(
                "INSERT INTO threads VALUES (?, ?, ?, ?, ?, ?, 'legacy', NULL, NULL, NULL, NULL, ?, NULL, NULL, ?, '', ?, ?, \
                 ?, '', '', 0, '', ?, ?, ?, ?, ?, NULL, NULL, NULL, ?, 0)",
            )
            .bind(uuid::Uuid::from_u128(thread.id.value).to_string())
            .bind(&thread.rollout_path)
            .bind(thread.created_at)
            .bind(thread.updated_at)
            .bind(thread.recency_at)
            .bind(&thread.source)
            .bind(&thread.model_provider)
            .bind(&thread.cwd)
            .bind(&thread.title)
            .bind(&thread.name)
            .bind(thread.preview.as_deref().unwrap_or(""))
            .bind(thread.archived_at.is_some())
            .bind(thread.archived_at)
            .bind(thread.section.as_ref().map(|section| section.id.clone()))
            .bind(thread.section_position)
            .bind(thread.section_entered_at)
            .bind(&thread.repository_identity)
            .execute(&mut connection)
            .await
            .expect("insert thread");
        }
        let mut statement = sqlx::query(sqlx::AssertSqlSafe(query.text.clone()));
        for bind in &query.binds {
            statement = match bind {
                SqlBind::Text(text) => statement.bind(text.clone()),
                SqlBind::Integer(value) => statement.bind(*value),
            };
        }
        statement
            .fetch_all(&mut connection)
            .await
            .expect("query")
            .into_iter()
            .map(|row| row.get::<String, _>(column))
            .collect()
    })
}

#[test]
fn list_threads_filters_sections_before_recency_pagination_and_uses_index() {
    let mut runtime = StateRuntime::new(RuntimeStateBackend::Sqlite);
    let oldest_pinned = thread_id("00000000-0000-0000-0000-000000000041");
    let newest_unpinned = thread_id("00000000-0000-0000-0000-000000000042");
    let newest_pinned = thread_id("00000000-0000-0000-0000-000000000043");
    let oldest_unpinned = thread_id("00000000-0000-0000-0000-000000000044");

    for (id, recency_at, section) in [
        (
            oldest_pinned,
            1_700_000_001,
            Some(PINNED_THREAD_SECTION_ID),
        ),
        (newest_unpinned, 1_700_000_003, None),
        (
            newest_pinned,
            1_700_000_002,
            Some(PINNED_THREAD_SECTION_ID),
        ),
        (oldest_unpinned, 1_700_000_000, None),
    ] {
        let mut metadata = test_thread_metadata(id);
        metadata.recency_at = recency_at * 1000;
        metadata.section = section.map(|id| ThreadSection {
            id: id.to_string(),
            name: PINNED_THREAD_SECTION_NAME.to_string(),
            appearance: None,
        });
        runtime.upsert_thread(&metadata).unwrap();
    }

    let filters = |anchor, section| ThreadFilterOptions {
        archived_only: false,
        allowed_sources: &[],
        model_providers: None,
        cwd_filters: None,
        repository_identity: None,
        section,
        anchor,
        sort_key: SortKey::RecencyAt,
        sort_direction: SortDirection::Desc,
        search_term: None,
    };
    let first_page = runtime
        .list_threads(
            1,
            filters(None, Some(Some(PINNED_THREAD_SECTION_ID))),
        )
        .unwrap();
    assert_eq!(
        (
            first_page.items.len(),
            first_page.items[0].id,
            first_page.items[0].section.clone(),
        ),
        (
            1,
            newest_pinned,
            Some(ThreadSection {
                id: PINNED_THREAD_SECTION_ID.to_string(),
                name: PINNED_THREAD_SECTION_NAME.to_string(),
            appearance: None,
            }),
        )
    );
    let second_page = runtime
        .list_threads(
            1,
            filters(
                first_page.next_anchor.as_ref(),
                Some(Some(PINNED_THREAD_SECTION_ID)),
            ),
        )
        .unwrap();
    assert_eq!(
        (
            second_page
                .items
                .iter()
                .map(|thread| thread.id)
                .collect::<Vec<_>>(),
            second_page.next_anchor,
        ),
        (vec![oldest_pinned], None)
    );

    let unsectioned_page = runtime
        .list_threads(10, filters(None, Some(None)))
        .unwrap();
    assert_eq!(
        unsectioned_page
            .items
            .iter()
            .map(|thread| thread.id)
            .collect::<Vec<_>>(),
        vec![newest_unpinned, oldest_unpinned]
    );

    let all_sections_page = runtime
        .list_threads(10, filters(None, None))
        .unwrap();
    assert_eq!(
        all_sections_page
            .items
            .iter()
            .map(|thread| thread.id)
            .collect::<Vec<_>>(),
        vec![
            newest_unpinned,
            newest_pinned,
            oldest_pinned,
            oldest_unpinned,
        ]
    );

    let mut query = SqlQuery::new();
    push_list_threads_query(&mut query, filters(None, Some(Some(PINNED_THREAD_SECTION_ID))), None, 2);
    query.text.insert_str(0, "EXPLAIN QUERY PLAN ");
    let plan_details = run_in_sqlite(&query, &[], "detail");
    assert!(
        plan_details
            .iter()
            .any(|detail| detail.contains("idx_threads_section_recency_at_ms")),
        "section listing did not use its selective recency index: {plan_details:?}"
    );
    assert!(
        !plan_details
            .iter()
            .any(|detail| detail.contains("TEMP B-TREE")),
        "section listing unexpectedly sorted outside its index: {plan_details:?}"
    );
}

#[test]
fn section_position_listing_uses_stable_indexed_keyset_pagination() {
    let mut runtime = StateRuntime::new(RuntimeStateBackend::Sqlite);
    runtime
        .create_thread_section(ThreadSection {
            id: CUSTOM_THREAD_SECTION_ID.to_string(),
            name: "Custom section".to_string(),
            appearance: None,
        })
        .expect("custom test section should be explicitly registered");
    let first = thread_id("00000000-0000-0000-0000-000000000061");
    let tied = thread_id("00000000-0000-0000-0000-000000000062");
    let last = thread_id("00000000-0000-0000-0000-000000000063");

    for (id, position) in [(first, 1_000_000), (tied, 1_000_000), (last, 2_000_000)] {
        let mut metadata = test_thread_metadata(id);
        metadata.section = Some(ThreadSection {
            id: CUSTOM_THREAD_SECTION_ID.to_string(),
            name: "Custom section".to_string(),
            appearance: None,
        });
        metadata.section_position = Some(position);
        metadata.section_entered_at = Some(metadata.updated_at);
        runtime.upsert_thread(&metadata).unwrap();
    }

    let filters = |anchor| ThreadFilterOptions {
        archived_only: false,
        allowed_sources: &[],
        model_providers: None,
        cwd_filters: None,
        repository_identity: None,
        section: Some(Some(CUSTOM_THREAD_SECTION_ID)),
        anchor,
        sort_key: SortKey::SectionPosition,
        sort_direction: SortDirection::Asc,
        search_term: None,
    };
    let first_page = runtime
        .list_threads(1, filters(None))
        .unwrap();
    let second_page = runtime
        .list_threads(
            1,
            filters(first_page.next_anchor.as_ref()),
        )
        .unwrap();
    let third_page = runtime
        .list_threads(
            1,
            filters(second_page.next_anchor.as_ref()),
        )
        .unwrap();
    assert_eq!(
        (
            [
                first_page.items[0].id,
                second_page.items[0].id,
                third_page.items[0].id,
            ],
            third_page.next_anchor,
        ),
        ([first, tied, last], None)
    );

    let mut query = SqlQuery::new();
    push_list_threads_query(&mut query, filters(None), None, 2);
    query.text.insert_str(0, "EXPLAIN QUERY PLAN ");
    let plan_details = run_in_sqlite(&query, &[], "detail");
    assert!(
        plan_details
            .iter()
            .any(|detail| detail.contains("idx_threads_section_position")),
        "section-position listing did not use its selective index: {plan_details:?}"
    );
    assert!(
        !plan_details
            .iter()
            .any(|detail| detail.contains("TEMP B-TREE")),
        "section-position listing unexpectedly sorted outside its index: {plan_details:?}"
    );
}

#[test]
fn rendered_listings_show_what_the_library_lists() {
    let mut runtime = StateRuntime::new(RuntimeStateBackend::Sqlite);
    let mut stored = Vec::new();
    for index in 0..12u32 {
        let mut metadata = test_thread_metadata(ThreadId { value: u128::from(100 + index) });
        metadata.updated_at += i64::from(index % 5) * 10_000;
        metadata.recency_at = metadata.updated_at;
        metadata.source = if index % 3 == 0 { "cli" } else { "exec" }.to_string();
        metadata.cwd = format!("/workspace/{}", index % 2);
        metadata.title = format!("title {index}");
        metadata.archived_at = if index == 7 { Some(1_700_000_000_000) } else { None };
        metadata.preview = if index == 8 { None } else { Some(format!("preview {index}")) };
        metadata.first_user_message = None;
        metadata.repository_identity = if index % 4 == 0 { Some("repo".to_string()) } else { None };
        runtime.upsert_thread(&metadata).expect("thread");
        stored.push(runtime.get_thread(metadata.id).expect("local").expect("stored"));
    }
    let sources = ["cli".to_string()];
    let directories = ["/workspace/0".to_string(), "/workspace/1".to_string()];
    for sort_key in [SortKey::CreatedAt, SortKey::UpdatedAt, SortKey::RecencyAt] {
        for (allowed_sources, cwd_filters, repository_identity, search_term) in [
            (&sources[..0], None, None, None),
            (&sources[..], None, None, None),
            (&sources[..0], Some(&directories[..1]), None, None),
            (&sources[..0], Some(&directories[..1]), Some("repo"), None),
            (&sources[..0], Some(&directories[..]), None, Some("1")),
            (&sources[..0], Some(&directories[..0]), None, None),
        ] {
            let filters = ThreadFilterOptions {
                archived_only: false,
                allowed_sources,
                model_providers: None,
                cwd_filters,
                repository_identity,
                section: None,
                anchor: None,
                sort_key,
                sort_direction: SortDirection::Desc,
                search_term,
            };
            let mut query = SqlQuery::new();
            push_list_threads_query(&mut query, filters, None, 20);
            let mut rendered = run_in_sqlite(&query, &stored, "id");
            let page = runtime.list_threads(20, filters).expect("local");
            let mut listed: Vec<String> = page
                .items
                .iter()
                .map(|thread| uuid::Uuid::from_u128(thread.id.value).to_string())
                .collect();
            if sort_key == SortKey::CreatedAt {
                // Threads created at the same time come in any order.
                rendered.sort();
                listed.sort();
            }
            assert_eq!(rendered, listed, "{}", query.text);
        }
    }
}
