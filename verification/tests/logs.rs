use codex_state::LogEntry;
use codex_state::LogQuery;
use codex_state::LogRow;
use codex_state::LogStore;
use codex_state::LogStoreError;
use codex_state::RuntimeStateBackend;

fn entry(ts: i64, message: &str) -> LogEntry {
    LogEntry {
        ts,
        ts_nanos: 0,
        level: "INFO".to_string(),
        target: "contract".to_string(),
        message: Some(message.to_string()),
        feedback_log_body: None,
        thread_id: Some("thread-1".to_string()),
        process_uuid: Some("process-1".to_string()),
        module: Some("contract::logs".to_string()),
        file: Some("contract.rs".to_string()),
        line: Some(15),
    }
}

fn run_replica_visibility_contract(
    store: &mut LogStore,
) -> Result<(), LogStoreError> {
    store.insert_log(&entry(10, "single"), &[])?;
    store
        .insert_logs(&[entry(20, "batch-one"), entry(30, "batch-two")], &[])?;

    assert_eq!(
        store.query_logs(&LogQuery::default()).expect("query logs"),
        vec![
            LogRow {
                id: 1,
                ts: 10,
                ts_nanos: 0,
                level: "INFO".to_string(),
                target: "contract".to_string(),
                message: Some("single".to_string()),
                thread_id: Some("thread-1".to_string()),
                process_uuid: Some("process-1".to_string()),
                file: Some("contract.rs".to_string()),
                line: Some(15),
            },
            LogRow {
                id: 2,
                ts: 20,
                ts_nanos: 0,
                level: "INFO".to_string(),
                target: "contract".to_string(),
                message: Some("batch-one".to_string()),
                thread_id: Some("thread-1".to_string()),
                process_uuid: Some("process-1".to_string()),
                file: Some("contract.rs".to_string()),
                line: Some(15),
            },
            LogRow {
                id: 3,
                ts: 30,
                ts_nanos: 0,
                level: "INFO".to_string(),
                target: "contract".to_string(),
                message: Some("batch-two".to_string()),
                thread_id: Some("thread-1".to_string()),
                process_uuid: Some("process-1".to_string()),
                file: Some("contract.rs".to_string()),
                line: Some(15),
            },
        ]
    );
    Ok(())
}

fn run_filter_order_and_max_id_contract(
    store: &mut LogStore,
) -> Result<(), LogStoreError> {
    let mut first = entry(10, "ignored");
    first.module = Some("contract::ignored".to_string());
    first.file = Some("ignored.rs".to_string());

    let mut second = entry(20, "beta second");
    second.level = "warn".to_string();
    second.thread_id = Some("thread-2".to_string());
    second.process_uuid = Some("process-2".to_string());
    second.module = Some("contract::worker".to_string());
    second.file = Some("worker.rs".to_string());
    second.line = Some(20);

    let mut third = entry(30, "beta third");
    third.level = "ERROR".to_string();
    third.thread_id = None;
    third.process_uuid = Some("process-2".to_string());
    third.module = Some("contract::worker::nested".to_string());
    third.file = Some("nested.rs".to_string());
    third.line = Some(30);

    let mut fourth = entry(40, "too late");
    fourth.level = "WARN".to_string();
    fourth.module = Some("contract::worker".to_string());
    fourth.file = Some("worker.rs".to_string());

    store.insert_logs(&[first, second, third, fourth], &[])?;

    let query = LogQuery {
        levels_upper: vec!["WARN".to_string(), "ERROR".to_string()],
        from_ts: Some(15),
        to_ts: Some(35),
        module_like: vec!["worker".to_string()],
        file_like: vec![".rs".to_string()],
        thread_ids: vec!["thread-2".to_string()],
        search: Some("beta".to_string()),
        include_threadless: true,
        after_id: Some(1),
        limit: Some(2),
        descending: true,
    };
    assert_eq!(
        store.query_logs(&query).expect("query logs"),
        vec![
            LogRow {
                id: 3,
                ts: 30,
                ts_nanos: 0,
                level: "ERROR".to_string(),
                target: "contract".to_string(),
                message: Some("beta third".to_string()),
                thread_id: None,
                process_uuid: Some("process-2".to_string()),
                file: Some("nested.rs".to_string()),
                line: Some(30),
            },
            LogRow {
                id: 2,
                ts: 20,
                ts_nanos: 0,
                level: "warn".to_string(),
                target: "contract".to_string(),
                message: Some("beta second".to_string()),
                thread_id: Some("thread-2".to_string()),
                process_uuid: Some("process-2".to_string()),
                file: Some("worker.rs".to_string()),
                line: Some(20),
            },
        ]
    );
    assert_eq!(store.max_log_id(&query).expect("greatest log id"), 3);
    Ok(())
}

fn run_feedback_contract(
    store: &mut LogStore,
) -> Result<(), LogStoreError> {
    let mut thread = entry(10, "message fallback is not selected");
    thread.feedback_log_body = Some("thread body".to_string());
    thread.process_uuid = Some("shared-process".to_string());

    let mut threadless = entry(20, "ignored fallback");
    threadless.level = "WARN".to_string();
    threadless.feedback_log_body = Some("process body\n".to_string());
    threadless.thread_id = None;
    threadless.process_uuid = Some("shared-process".to_string());

    let mut unrelated = entry(30, "unrelated");
    unrelated.level = "ERROR".to_string();
    unrelated.thread_id = Some("thread-2".to_string());
    unrelated.process_uuid = Some("other-process".to_string());

    store.insert_logs(&[thread, threadless, unrelated], &[])?;

    assert_eq!(
        store.query_feedback_logs("thread-1").expect("feedback logs"),
        b"1970-01-01T00:00:10.000000Z  INFO thread body\n\
1970-01-01T00:00:20.000000Z  WARN process body\n"
            .to_vec()
    );
    Ok(())
}

fn run_startup_retention_contract(
    store: &mut LogStore,
) -> Result<(), LogStoreError> {
    let retained_ts = chrono::Utc::now().timestamp();
    store
        .insert_logs(&[entry(1, "expired"), entry(retained_ts, "retained")], &[])?;

    store.run_startup_maintenance().expect("maintenance");

    let rows = store.query_logs(&LogQuery::default()).expect("query logs");
    assert_eq!(rows.len(), 1);
    assert_eq!(rows[0].message.as_deref(), Some("retained"));

    store.delete_logs_for_thread("thread-1").expect("delete logs");
    assert_eq!(store.query_logs(&LogQuery::default()).expect("query logs"), Vec::new());
    Ok(())
}

fn run_partition_limits_contract(
    store: &mut LogStore,
) -> Result<(), LogStoreError> {
    let entries = (0..=1_000)
        .map(|index| {
            let mut entry = entry(index, &format!("row-{index}"));
            if index % 2 == 0 {
                entry.process_uuid = None;
            }
            entry
        })
        .collect::<Vec<_>>();
    store.insert_logs(&entries, &[])?;

    let thread_rows = store
        .query_logs(&LogQuery {
            thread_ids: vec!["thread-1".to_string()],
            ..LogQuery::default()
        }).expect("query logs");
    assert_eq!(thread_rows.len(), 1_000);
    assert_eq!(thread_rows.first().map(|row| row.id), Some(2));
    assert_eq!(thread_rows.last().map(|row| row.id), Some(1_001));

    let mut process_entries = (0..=1_000)
        .map(|index| {
            let mut entry = entry(1_000 + index, &format!("process-row-{index}"));
            entry.thread_id = None;
            entry.process_uuid = Some("thread-1".to_string());
            entry
        })
        .collect::<Vec<_>>();
    process_entries.push(entry(2_001, "newest-thread-row"));
    store.insert_logs(&process_entries, &[])?;
    let process_rows = store
        .query_logs(&LogQuery {
            include_threadless: true,
            ..LogQuery::default()
        }).expect("query logs");
    assert_eq!(process_rows.len(), 1_000);
    assert_eq!(process_rows.first().map(|row| row.id), Some(1_003));
    assert_eq!(process_rows.last().map(|row| row.id), Some(2_002));
    let updated_thread_rows = store
        .query_logs(&LogQuery {
            thread_ids: vec!["thread-1".to_string()],
            ..LogQuery::default()
        }).expect("query logs");
    assert_eq!(updated_thread_rows.len(), 1_000);
    assert_eq!(updated_thread_rows.first().map(|row| row.id), Some(3));
    assert_eq!(updated_thread_rows.last().map(|row| row.id), Some(2_003));

    let oversized_body = "x".repeat(10 * 1024 * 1024 + 1);
    let mut oversized = entry(2_000, &oversized_body);
    oversized.thread_id = Some("oversized-thread".to_string());
    store.insert_log(&oversized, &[])?;
    assert_eq!(
        store
            .query_logs(&LogQuery {
                thread_ids: vec!["oversized-thread".to_string()],
                ..LogQuery::default()
            }).expect("query logs"),
        Vec::<LogRow>::new()
    );
    Ok(())
}

#[test]
fn sqlite_logs_satisfy_replica_visibility_contract() -> Result<(), LogStoreError> {
    let mut store = LogStore::new(RuntimeStateBackend::Sqlite);

    run_replica_visibility_contract(&mut store)
}

#[test]
fn sqlite_logs_satisfy_filter_order_and_max_id_contract() -> Result<(), LogStoreError> {
    let mut store = LogStore::new(RuntimeStateBackend::Sqlite);

    run_filter_order_and_max_id_contract(&mut store)
}

#[test]
fn sqlite_logs_satisfy_feedback_contract() -> Result<(), LogStoreError> {
    let mut store = LogStore::new(RuntimeStateBackend::Sqlite);

    run_feedback_contract(&mut store)
}

#[test]
fn sqlite_logs_satisfy_startup_retention_contract() -> Result<(), LogStoreError> {
    let mut store = LogStore::new(RuntimeStateBackend::Sqlite);

    run_startup_retention_contract(&mut store)
}

#[test]
fn sqlite_logs_satisfy_partition_limits_contract() -> Result<(), LogStoreError> {
    let mut store = LogStore::new(RuntimeStateBackend::Sqlite);

    run_partition_limits_contract(&mut store)
}
