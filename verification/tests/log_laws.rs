use codex_state::log_store::feedback::format_feedback_log_line;
use codex_state::log_store::feedback::format_timed_log_line;
use codex_state::log_store::has_countable_size;
use codex_state::log_store::estimated_log_bytes;
use codex_state::log_store::is_like_part;
use codex_state::LogEntry;
use codex_state::LogQuery;
use codex_state::LogStore;
use codex_state::LogStoreError;
use codex_state::RuntimeStateBackend;
use codex_state::StateRuntime;
use codex_state::ThreadId;

fn entry(ts: i64, message: &str) -> LogEntry {
    LogEntry {
        ts,
        ts_nanos: 0,
        level: "INFO".to_string(),
        target: "target".to_string(),
        message: Some(message.to_string()),
        feedback_log_body: None,
        thread_id: Some("thread-1".to_string()),
        process_uuid: Some("process-1".to_string()),
        module: None,
        file: None,
        line: None,
    }
}

fn messages(store: &LogStore, query: &LogQuery) -> Vec<String> {
    store
        .query_logs(query).expect("query logs")
        .into_iter()
        .map(|row| row.message.unwrap_or_default())
        .collect()
}

#[test]
fn partitions_stay_bounded_and_keep_the_newest() {
    let mut store = LogStore::new(RuntimeStateBackend::Sqlite);
    let body = "x".repeat(4 * 1024 * 1024);
    for ts in 1..=3 {
        let mut large = entry(ts, &format!("{ts}"));
        large.feedback_log_body = Some(body.clone());
        store.insert_log(&large, &[]).expect("local");
    }
    // Three bodies exceed ten megabytes, two do not.
    let rows = store.query_logs(&LogQuery::default()).expect("query logs");
    assert_eq!(rows.iter().map(|row| row.ts).collect::<Vec<_>>(), vec![2, 3]);
}

#[test]
fn logs_within_limits_stay_and_identifiers_grow() {
    let mut store = LogStore::new(RuntimeStateBackend::Sqlite);
    store.insert_logs(&[entry(1, "a"), entry(2, "b")], &[]).expect("local");
    store.delete_logs_for_thread("thread-1").expect("delete logs");
    assert_eq!(store.query_logs(&LogQuery::default()).expect("query logs"), Vec::new());
    store.insert_log(&entry(3, "c"), &[]).expect("local");
    let rows = store.query_logs(&LogQuery::default()).expect("query logs");
    assert_eq!(rows.iter().map(|row| row.id).collect::<Vec<_>>(), vec![3]);
    assert_eq!(store.max_log_id(&LogQuery::default()).expect("greatest log id"), 3);
    let none = LogQuery { after_id: Some(3), ..LogQuery::default() };
    assert_eq!(store.max_log_id(&none).expect("greatest log id"), 0);
    store.insert_logs(&[], &[]).expect("nothing");
    assert_eq!(store.max_log_id(&LogQuery::default()).expect("greatest log id"), 3);
}

#[test]
fn queries_narrow_and_order() {
    let mut store = LogStore::new(RuntimeStateBackend::Sqlite);
    let mut warning = entry(2, "warned");
    warning.level = "warn".to_string();
    store.insert_logs(&[entry(1, "first"), warning, entry(3, "last")], &[]).expect("local");
    assert_eq!(messages(&store, &LogQuery::default()), vec!["first", "warned", "last"]);
    let descending = LogQuery { descending: true, limit: Some(2), ..LogQuery::default() };
    assert_eq!(messages(&store, &descending), vec!["last", "warned"]);
    let warnings = LogQuery { levels_upper: vec!["WARN".to_string()], ..LogQuery::default() };
    assert_eq!(messages(&store, &warnings), vec!["warned"]);
    let searched = LogQuery { search: Some("ast".to_string()), ..LogQuery::default() };
    assert_eq!(messages(&store, &searched), vec!["last"]);
}

#[test]
fn maintenance_is_idempotent() {
    let mut store = LogStore::new(RuntimeStateBackend::Sqlite);
    let day = 24 * 60 * 60;
    let now = 100 * day;
    store
        .insert_logs(&[entry(now - 10 * day - 1, "old"), entry(now - 10 * day, "kept"), entry(now, "new")], &[])
        .expect("local");
    store.run_startup_maintenance_at(now).expect("maintenance");
    assert_eq!(messages(&store, &LogQuery::default()), vec!["kept", "new"]);
    store.run_startup_maintenance_at(now).expect("maintenance");
    assert_eq!(messages(&store, &LogQuery::default()), vec!["kept", "new"]);
}

#[test]
fn feedback_is_bounded() {
    let mut store = LogStore::new(RuntimeStateBackend::Sqlite);
    let body = "y".repeat(3 * 1024 * 1024);
    for ts in 1..=3 {
        let mut large = entry(ts, "m");
        large.feedback_log_body = Some(body.clone());
        store.insert_log(&large, &[]).expect("local");
        let mut threadless = entry(ts, "m");
        threadless.feedback_log_body = Some(body.clone());
        threadless.thread_id = None;
        store.insert_log(&threadless, &[]).expect("local");
    }
    let bytes = store.query_feedback_logs("thread-1").expect("feedback logs");
    assert!(bytes.len() <= 10 * 1024 * 1024);
    assert!(bytes.len() > 9 * 1024 * 1024);
    assert_eq!(store.query_feedback_logs("thread-2").expect("feedback logs"), Vec::<u8>::new());
}

#[test]
fn feedback_lines_have_time_level_and_body() {
    assert_eq!(
        format_feedback_log_line(1_700_000_000, 123_456_789, "WARN", "body"),
        "2023-11-14T22:13:20.123456Z  WARN body\n"
    );
    assert_eq!(
        format_feedback_log_line(0, -1, "ERROR", "body\n"),
        "1970-01-01T00:00:00.000000Z ERROR body\n"
    );
    assert_eq!(format_feedback_log_line(i64::MAX, 7, "LONGER", "body"), "9223372036854775807.000000007Z LONGER body\n");
    assert_eq!(format_feedback_log_line(i64::MIN, -7, "A", "b"), "-9223372036854775808.-00000007Z     A b\n");
    assert_eq!(format_timed_log_line(Some("now".to_string()), 1, 2, "INFO", "body"), "now  INFO body\n");
}

#[test]
fn sizes_count_bytes() {
    let mut log = entry(1, "m\u{e9}");
    assert_eq!(estimated_log_bytes(&log), 3 + 4 + 6);
    log.feedback_log_body = Some("body!".to_string());
    log.module = Some("a::b".to_string());
    log.file = Some("f.rs".to_string());
    assert!(has_countable_size(&log));
    assert_eq!(estimated_log_bytes(&log), 5 + 4 + 6 + 4 + 4);
}

#[test]
fn patterns_match_parts() {
    assert!(is_like_part("Some::Path", "path", false));
    assert!(is_like_part("abc", "a%c", false));
    assert!(is_like_part("abc", "a_c", true));
    assert!(!is_like_part("abc", "a\\_c", true));
    assert!(is_like_part("a_c", "a\\_c", true));
    assert!(!is_like_part("abc", "d", false));
    assert!(is_like_part("abc", "", false));
}

#[test]
fn shared_databases_keep_logs_of_known_threads() {
    let mut store = LogStore::new(RuntimeStateBackend::Postgresql);
    let error = store.insert_log(&entry(1, "lost"), &[]).expect_err("unknown thread");
    assert_eq!(error, LogStoreError::NoCanonicalThread);
    assert_eq!(
        error.message(),
        "Runtime State could not complete the `insert thread logs` operation; verify canonical thread state, then retry"
    );
    store
        .insert_log(&entry(1, "kept"), &["thread-1".to_string()])
        .expect("known thread");
    assert_eq!(messages(&store, &LogQuery::default()), vec!["kept"]);
    assert_eq!(LogStoreError::EntryTooLarge.message(), "log entry size exceeds supported range");
    assert_eq!(LogStoreError::IdentifiersExhausted.message(), "log identifiers are exhausted");
}

#[test]
fn runtimes_know_their_threads_by_text() {
    let mut runtime = StateRuntime::new(RuntimeStateBackend::Postgresql);
    let mut log = entry(1, "of a thread");
    log.thread_id = Some("00000000-0000-0000-0000-0000000000ab".to_string());
    assert_eq!(runtime.insert_log(&log), Err(LogStoreError::NoCanonicalThread));
    runtime.put_thread_row(codex_state::ThreadRow {
        metadata: codex_state::ThreadMetadata {
            id: ThreadId { value: 0xab },
            rollout_path: String::new(),
            created_at: 0,
            updated_at: 0,
            recency_at: 0,
            source: String::new(),
            history_mode: codex_state::ThreadHistoryMode::Legacy,
            thread_source: None,
            agent_nickname: None,
            agent_role: None,
            agent_path: None,
            model_provider: String::new(),
            model: None,
            reasoning_effort: None,
            cwd: String::new(),
            cli_version: String::new(),
            title: String::new(),
            name: None,
            preview: None,
            sandbox_policy: String::new(),
            approval_mode: String::new(),
            tokens_used: 0,
            first_user_message: None,
            archived_at: None,
            section: None,
            section_position: None,
            section_entered_at: None,
            is_pinned: false,
            git_sha: None,
            git_branch: None,
            git_origin_url: None,
            repository_identity: None,
        },
        memory_mode: "enabled".to_string(),
        memory_mode_ordinal: -1,
        stream_version: 0,
        polluted_at_stream_version: None,
        has_rollout_path: true,
    });
    assert_eq!(runtime.insert_log(&log), Ok(()));
    assert_eq!(runtime.max_log_id(&LogQuery::default()).expect("greatest log id"), 1);
    assert_eq!(
        runtime.query_feedback_logs("00000000-0000-0000-0000-0000000000ab").expect("feedback logs"),
        b"1970-01-01T00:00:01.000000Z  INFO of a thread\n".to_vec()
    );
    runtime.run_logs_startup_maintenance().expect("maintenance");
    assert_eq!(runtime.query_logs(&LogQuery::default()).expect("query logs"), Vec::new());
}
