//! Laws of the stores as the runtime state offers them, told in what they hold before and after.

use super::thread_laws::other_threads_stay;
use super::StateRuntime;
use super::StateRuntimeView;
use crate::backend::RuntimeStateBackend;
use crate::backend::RuntimeStateBackendConfig;
use crate::backfill::BackfillError;
use crate::backfill::BackfillState;
use crate::backfill::BackfillStatus;
use crate::external_agent_config_imports::effect_laws::is_recorded_as_given;
use crate::external_agent_config_imports::store::is_history_of;
use crate::external_agent_config_imports::store::is_record_of;
use crate::external_agent_config_imports::AllImports;
use crate::external_agent_config_imports::ExternalAgentConfigImportDetailsRecord;
use crate::external_agent_config_imports::ExternalAgentConfigImportFailureRecord;
use crate::external_agent_config_imports::ExternalAgentConfigImportHistoryRecord;
use crate::external_agent_config_imports::ExternalAgentConfigImportSuccessRecord;
use crate::external_agent_config_imports::ImportRow;
use crate::external_agent_config_imports::ImportRowView;
use crate::external_agent_config_imports::LatestFirst;
use crate::log_store::feedback_laws::lemma_one_text;
use crate::log_store::insert::inserting;
use crate::log_store::query_laws::lemma_queried;
use crate::log_store::record_laws::held_before_pruning;
use crate::log_store::record_laws::keeps_the_newest;
use crate::log_store::record_laws::lemma_recording;
use crate::log_store::LogEntry;
use crate::log_store::LogQuery;
use crate::log_store::LogRow;
use crate::log_store::LogStore;
use crate::log_store::LogStoreError;
use crate::log_store::StoredLog;
use crate::memory_store::output_laws::days_before;
use crate::memory_store::output_laws::fresh_as_of;
use crate::memory_store::output_laws::lemma_preferred;
use crate::memory_store::output_laws::lemma_selected;
use crate::memory_store::output_laws::may_be_used;
use crate::memory_store::output_laws::tells_of;
use crate::memory_store::output_laws::times_used;
use crate::memory_store::outputs::lists_for_global;
use crate::memory_store::outputs::selects_for_phase2;
use crate::memory_store::startup_laws::has_countable_spans;
use crate::memory_store::startup_laws::lemma_startup_claims;
use crate::memory_store::startup_laws::may_be_claimed;
use crate::memory_store::MemoryJobStatus;
use crate::memory_store::MemoryStoreError;
use crate::memory_store::Stage1JobClaim;
use crate::memory_store::Stage1Output;
use crate::memory_store::Stage1StartupClaimParams;
use crate::outside::uuid_text;
use crate::remote_control::effect_laws::key_for;
use crate::remote_control::EnrollmentError;
use crate::remote_control::RemoteControlEnrollmentRecord;
use crate::table::is_full_listing;
use crate::table::row_selected;
use crate::table::Ranking;
use crate::table::Table;
use crate::text::text_views;
use crate::thread_id::ThreadId;
use crate::threads::ThreadRow;
use vstd::prelude::*;

verus! {

/// The database that is used is the one that is configured.
pub proof fn law_configured_database_is_used(config: &RuntimeStateBackendConfig, backend: RuntimeStateBackend, shared: bool)
    requires
        call_ensures(RuntimeStateBackendConfig::backend, (config,), backend),
        call_ensures(RuntimeStateBackendConfig::is_postgresql, (config,), shared),
    ensures
        backend is Postgresql <==> config is Postgresql,
        shared <==> config is Postgresql,
{
}

/// Closing closes the stores for goals, the backfill, enrollments, memory and logs. What they hold stays.
pub proof fn law_closing_closes_the_stores(runtime: &mut StateRuntime)
    requires
        call_ensures(StateRuntime::close, (runtime,), ()),
    ensures
        final(runtime)@.goals.closed,
        final(runtime)@.backfill.closed,
        final(runtime)@.enrollments.closed,
        final(runtime)@.memories.closed,
        final(runtime)@.logs.closed,
        final(runtime)@.goals.goals == old(runtime)@.goals.goals,
        final(runtime)@.backfill.row == old(runtime)@.backfill.row,
        final(runtime)@.enrollments.enrollments == old(runtime)@.enrollments.enrollments,
        final(runtime)@.memories.outputs == old(runtime)@.memories.outputs,
        final(runtime)@.memories.jobs == old(runtime)@.memories.jobs,
        final(runtime)@.memories.generations == old(runtime)@.memories.generations,
        final(runtime)@.logs.rows == old(runtime)@.logs.rows,
        final(runtime)@.threads == old(runtime)@.threads,
        final(runtime)@.sections == old(runtime)@.sections,
        final(runtime)@.spawn_edges == old(runtime)@.spawn_edges,
        final(runtime)@.imports == old(runtime)@.imports,
{
}

/// The texts are those of the threads that exist.
pub open spec fn names_threads(threads: Map<ThreadId, ThreadRow>, texts: Seq<String>) -> bool {
    &&& forall|k: int| 0 <= k < texts.len() ==> names_thread(threads, #[trigger] texts[k]@)
    &&& forall|id: ThreadId| #[trigger] threads.contains_key(id) ==> text_views(texts).contains(uuid_text(id.value))
}

/// The text is that of a thread that exists.
pub open spec fn names_thread(threads: Map<ThreadId, ThreadRow>, text: Seq<char>) -> bool {
    exists|id: ThreadId| #[trigger] threads.contains_key(id) && text == uuid_text(id.value)
}

/// Logs are recorded so that the newest stay; in a shared database only those of threads that exist, or of
/// none. Nothing but the logs changes.
pub proof fn law_runtime_records_logs(runtime: &mut StateRuntime, entries: &[LogEntry], result: Result<(), LogStoreError>)
    requires
        ({
            ||| call_ensures(StateRuntime::insert_logs, (runtime, entries), result)
            ||| entries@.len() == 1 && call_ensures(StateRuntime::insert_log, (runtime, &entries@[0]), result)
        }),
    ensures
        final(runtime)@.threads == old(runtime)@.threads,
        final(runtime)@.goals == old(runtime)@.goals,
        final(runtime)@.memories == old(runtime)@.memories,
        result is Err ==> final(runtime)@ == old(runtime)@,
        result is Ok && entries@.len() > 0 ==> exists|known: Seq<String>| names_threads(old(runtime)@.threads, known) && #[trigger] keeps_the_newest(
            old(runtime)@.logs,
            entries@,
            known,
            final(runtime)@.logs,
            held_before_pruning(old(runtime)@.logs, entries@, known),
        ),
{
    if call_ensures(StateRuntime::insert_logs, (runtime, entries), result) {
        let known = choose|known: Seq<String>| super::stores::is_canonical_list(old(runtime)@.threads, known) && {
            let (logs, expected) = #[trigger] inserting(old(runtime)@.logs, entries@, known);
            result == expected && final(runtime)@ == (StateRuntimeView { logs, ..old(runtime)@ })
        };
        lemma_names(old(runtime)@.threads, known);
        if result is Ok && entries@.len() > 0 {
            lemma_recording(old(runtime)@.logs, entries@, known, final(runtime)@.logs);
        }
    } else {
        let one = seq![entries@[0]];
        assert(entries@ =~= one);
        let known = choose|known: Seq<String>| super::stores::is_canonical_list(old(runtime)@.threads, known) && {
            let (logs, expected) = #[trigger] inserting(old(runtime)@.logs, one, known);
            result == expected && final(runtime)@ == (StateRuntimeView { logs, ..old(runtime)@ })
        };
        lemma_names(old(runtime)@.threads, known);
        if result is Ok {
            lemma_recording(old(runtime)@.logs, entries@, known, final(runtime)@.logs);
        }
    }
}

proof fn lemma_names(threads: Map<ThreadId, ThreadRow>, known: Seq<String>)
    requires
        super::stores::is_canonical_list(threads, known),
    ensures
        names_threads(threads, known),
{
    assert forall|k: int| 0 <= k < known.len() implies names_thread(threads, #[trigger] known[k]@) by {
        assert(crate::text::holds_text(known, known[k]@));
        assert(super::stores::is_thread_text(threads, known[k]@));
    }
    assert forall|id: ThreadId| #[trigger] threads.contains_key(id) implies text_views(known).contains(uuid_text(id.value)) by {
        assert(super::stores::is_thread_text(threads, uuid_text(id.value)));
        assert(crate::text::holds_text(known, uuid_text(id.value)));
        let k = choose|k: int| 0 <= k < known.len() && #[trigger] known[k]@ == uuid_text(id.value);
        assert(text_views(known)[k] == uuid_text(id.value));
    }
}

/// Logs that are read were recorded, and lie in the wanted range.
pub proof fn law_runtime_reads_wanted_logs(runtime: &StateRuntime, query: &LogQuery, rows: Vec<LogRow>, i: int)
    requires
        call_ensures(StateRuntime::query_logs, (runtime, query), Ok::<Vec<LogRow>, LogStoreError>(rows)),
        0 <= i < rows@.len(),
    ensures
        query.from_ts is Some ==> rows@[i].ts >= query.from_ts->0,
        query.to_ts is Some ==> rows@[i].ts <= query.to_ts->0,
        query.after_id is Some ==> rows@[i].id > query.after_id->0,
        query.limit is Some ==> rows@.len() <= query.limit->0,
        exists|k: int| {
            &&& 0 <= k < runtime@.logs.rows.len()
            &&& #[trigger] runtime@.logs.rows[k].id == rows@[i].id
            &&& runtime@.logs.rows[k].ts == rows@[i].ts
            &&& runtime@.logs.rows[k].level == rows@[i].level
            &&& runtime@.logs.rows[k].body == rows@[i].message
            &&& runtime@.logs.rows[k].thread_id == rows@[i].thread_id
        },
{
    let k = lemma_queried(runtime@.logs, *query, i);
    assert(runtime@.logs.rows[k].id == rows@[i].id);
}

/// The runtime state reads logs, their greatest identifier and the text for feedback as a store of the same logs
/// does.
pub proof fn law_runtime_reads_logs_as_the_store_does(
    runtime: &StateRuntime,
    store: &LogStore,
    query: &LogQuery,
    rows: Result<Vec<LogRow>, LogStoreError>,
    store_rows: Result<Vec<LogRow>, LogStoreError>,
    greatest: Result<i64, LogStoreError>,
    store_greatest: Result<i64, LogStoreError>,
    thread_ids: &[String],
    text: Result<Vec<u8>, LogStoreError>,
    store_text: Result<Vec<u8>, LogStoreError>,
)
    requires
        store@ == runtime@.logs,
        call_ensures(StateRuntime::query_logs, (runtime, query), rows),
        call_ensures(LogStore::query_logs, (store, query), store_rows),
        call_ensures(StateRuntime::max_log_id, (runtime, query), greatest),
        call_ensures(LogStore::max_log_id, (store, query), store_greatest),
        call_ensures(StateRuntime::query_feedback_logs_for_threads, (runtime, thread_ids), text),
        call_ensures(LogStore::query_feedback_logs_for_threads, (store, thread_ids), store_text),
    ensures
        rows is Ok <==> store_rows is Ok,
        rows is Ok ==> rows->Ok_0@ == store_rows->Ok_0@,
        greatest == store_greatest,
        text is Ok <==> store_text is Ok,
        text is Ok ==> text->Ok_0@ == store_text->Ok_0@,
{
    if text is Ok {
        lemma_one_text(runtime@.logs.rows, thread_ids@, text->Ok_0@, store_text->Ok_0@);
    }
    if greatest is Ok {
        let matching = crate::log_store::query::matching_logs(runtime@.logs, *query);
        if matching.len() > 0 {
            let a = choose|i: int| 0 <= i < matching.len() && (#[trigger] matching[i]).id == greatest->Ok_0;
            let b = choose|i: int| 0 <= i < matching.len() && (#[trigger] matching[i]).id == store_greatest->Ok_0;
            assert(matching[a].id <= store_greatest->Ok_0 && matching[b].id <= greatest->Ok_0);
        }
    }
}

/// Maintenance only drops logs, and changes nothing else.
pub proof fn law_runtime_maintains_logs(runtime: &mut StateRuntime, result: Result<(), LogStoreError>)
    requires
        call_ensures(StateRuntime::run_logs_startup_maintenance, (runtime,), result),
    ensures
        forall|row: StoredLog| #[trigger] final(runtime)@.logs.rows.contains(row) ==> old(runtime)@.logs.rows.contains(row),
        forall|a: StoredLog, b: StoredLog|
            #![trigger old(runtime)@.logs.rows.contains(a), final(runtime)@.logs.rows.contains(b)]
            old(runtime)@.logs.rows.contains(a) && final(runtime)@.logs.rows.contains(b) && a.ts >= b.ts ==> final(runtime)@.logs.rows.contains(a),
        final(runtime)@.threads == old(runtime)@.threads,
        final(runtime)@.goals == old(runtime)@.goals,
{
    let now = choose|now: i64| {
        let (logs, expected) = #[trigger] crate::log_store::insert::maintaining(old(runtime)@.logs, now);
        result == expected && final(runtime)@ == (StateRuntimeView { logs, ..old(runtime)@ })
    };
    let keep = |row: StoredLog| row.ts >= now - crate::log_store::LOG_RETENTION_DAYS * 86400;
    assert forall|row: StoredLog| #[trigger] old(runtime)@.logs.rows.filter(keep).contains(row) <==> old(runtime)@.logs.rows.contains(row) && keep(row) by {
        crate::sequences::lemma_filter_members(old(runtime)@.logs.rows, keep, row);
    }
}

/// The state of the backfill is read, claimed and recorded where the database is local and the store is open,
/// and nowhere else.
pub proof fn law_runtime_reads_the_backfill(runtime: &StateRuntime, result: Result<BackfillState, BackfillError>)
    requires
        call_ensures(StateRuntime::get_backfill_state, (runtime,), result),
    ensures
        result is Ok <==> runtime@.backend is Sqlite && !runtime@.backfill.closed,
        result is Ok ==> result->Ok_0@ == runtime@.backfill.row.state,
{
}

/// A claimed backfill runs with the progress it had. A complete one is never claimed, a pending one always.
pub proof fn law_runtime_claims_the_backfill(runtime: &mut StateRuntime, lease_seconds: i64, result: Result<bool, BackfillError>)
    requires
        call_ensures(StateRuntime::try_claim_backfill, (runtime, lease_seconds), result),
    ensures
        result is Ok <==> old(runtime)@.backend is Sqlite && !old(runtime)@.backfill.closed,
        result is Ok && old(runtime)@.backfill.row.state.status == BackfillStatus::Complete ==> !result->Ok_0,
        result is Ok && old(runtime)@.backfill.row.state.status == BackfillStatus::Pending ==> result->Ok_0,
        !(result is Ok && result->Ok_0) ==> final(runtime)@ == old(runtime)@,
        result is Ok && result->Ok_0 ==> {
            let before = old(runtime)@.backfill.row;
            let after = final(runtime)@.backfill.row;
            &&& after.state.status == BackfillStatus::Running
            &&& after.state.last_watermark == before.state.last_watermark
            &&& after.state.last_success_at == before.state.last_success_at
            &&& final(runtime)@.threads == old(runtime)@.threads
            &&& before.state.status == BackfillStatus::Running && lease_seconds > 0 && after.updated_at >= 0 ==> after.updated_at - before.updated_at >= lease_seconds
        },
{
}

/// A backfill that is recorded as running has the progress of a checkpoint, or else what it had.
pub proof fn law_runtime_records_the_backfill(runtime: &mut StateRuntime, watermark: Option<&str>, result: Result<(), BackfillError>)
    requires
        watermark is None ==> call_ensures(StateRuntime::mark_backfill_running, (runtime,), result),
        watermark is Some ==> call_ensures(StateRuntime::checkpoint_backfill, (runtime, watermark->0), result),
    ensures
        result is Ok <==> old(runtime)@.backend is Sqlite && !old(runtime)@.backfill.closed,
        result is Err ==> final(runtime)@ == old(runtime)@,
        result is Ok ==> {
            let before = old(runtime)@.backfill.row;
            let after = final(runtime)@.backfill.row;
            &&& after.state.status == BackfillStatus::Running
            &&& watermark is Some ==> after.state.last_watermark == Some(watermark->0@)
            &&& watermark is None ==> after.state.last_watermark == before.state.last_watermark
            &&& after.state.last_success_at == before.state.last_success_at
            &&& final(runtime)@.threads == old(runtime)@.threads
        },
{
}

/// A completed backfill is complete and dated, with the progress that was given, or else what it had.
pub proof fn law_runtime_completes_the_backfill(runtime: &mut StateRuntime, watermark: Option<&str>, result: Result<(), BackfillError>)
    requires
        call_ensures(StateRuntime::mark_backfill_complete, (runtime, watermark), result),
    ensures
        result is Ok <==> old(runtime)@.backend is Sqlite && !old(runtime)@.backfill.closed,
        result is Err ==> final(runtime)@ == old(runtime)@,
        result is Ok ==> {
            let before = old(runtime)@.backfill.row;
            let after = final(runtime)@.backfill.row;
            &&& after.state.status == BackfillStatus::Complete
            &&& watermark is Some ==> after.state.last_watermark == Some(watermark->0@)
            &&& watermark is None ==> after.state.last_watermark == before.state.last_watermark
            &&& after.state.last_success_at is Some
            &&& after.state.last_success_at->0 == after.updated_at
            &&& final(runtime)@.threads == old(runtime)@.threads
        },
{
}

/// A completed import is recorded as it was given, and is what its details tell then. Other imports stay.
pub proof fn law_runtime_records_imports(
    runtime: &mut StateRuntime,
    import_id: &str,
    provider_id: Option<&str>,
    successes: &[ExternalAgentConfigImportSuccessRecord],
    failures: &[ExternalAgentConfigImportFailureRecord],
)
    requires
        call_ensures(StateRuntime::record_external_agent_config_import_completed, (runtime, import_id, provider_id, successes, failures), ()),
    ensures
        final(runtime)@.imports.imports.contains_key(import_id@),
        is_recorded_as_given(final(runtime)@.imports.imports[import_id@], import_id@, provider_id, successes@, failures@),
        forall|other: Seq<char>| other != import_id@ && #[trigger] old(runtime)@.imports.imports.contains_key(other) ==> final(runtime)@.imports.imports.contains_key(other)
            && final(runtime)@.imports.imports[other] == old(runtime)@.imports.imports[other],
        final(runtime)@.threads == old(runtime)@.threads,
        final(runtime)@.memories == old(runtime)@.memories,
{
}

/// The details of an import are those recorded under its identifier.
pub proof fn law_runtime_tells_import_details(runtime: &StateRuntime, import_id: &str, details: Option<ExternalAgentConfigImportDetailsRecord>)
    requires
        call_ensures(StateRuntime::external_agent_config_import_details_record, (runtime, import_id), details),
    ensures
        details is Some <==> runtime@.imports.imports.contains_key(import_id@),
        details is Some ==> details->0.successes@ == runtime@.imports.imports[import_id@].successes && details->0.failures@ == runtime@.imports.imports[import_id@].failures,
{
}

/// The history of imports holds every recorded one, the last completed first.
pub proof fn law_runtime_tells_import_history(runtime: &StateRuntime, history: Vec<ExternalAgentConfigImportHistoryRecord>)
    requires
        call_ensures(StateRuntime::external_agent_config_import_history_records, (runtime,), history),
        forall|id: Seq<char>| #[trigger] runtime@.imports.imports.contains_key(id) ==> runtime@.imports.imports[id].import_id == id,
    ensures
        forall|i: int, j: int| #![trigger history@[i], history@[j]] 0 <= i < j < history@.len() ==> history@[i].completed_at_ms >= history@[j].completed_at_ms,
        forall|id: Seq<char>| #[trigger] runtime@.imports.imports.contains_key(id) ==> exists|i: int| 0 <= i < history@.len() && (#[trigger] history@[i]).import_id@ == id,
{
    let rows = choose|rows: Seq<ImportRowView>| {
        &&& #[trigger] is_full_listing::<ImportRow, AllImports, LatestFirst>(runtime@.imports.imports, AllImports {  }, LatestFirst {  }, rows)
        &&& is_history_of(rows, history@)
    };
    assert forall|id: Seq<char>| #[trigger] runtime@.imports.imports.contains_key(id) implies exists|i: int| 0 <= i < history@.len() && (#[trigger] history@[i]).import_id@ == id by {
        let row = runtime@.imports.imports[id];
        assert(row_selected::<ImportRow, AllImports>(runtime@.imports.imports, AllImports {  }, row));
        let i = choose|i: int| 0 <= i < rows.len() && rows[i] == row;
        assert(is_record_of(rows[i], history@[i]));
        assert(history@[i].import_id@ == id);
    }
    assert forall|i: int, j: int| #![trigger history@[i], history@[j]] 0 <= i < j < history@.len() implies history@[i].completed_at_ms >= history@[j].completed_at_ms by {
        assert(is_record_of(rows[i], history@[i]) && is_record_of(rows[j], history@[j]));
        assert(!Ranking::<ImportRow>::before(&LatestFirst {  }, rows[j], rows[i]));
    }
}

/// Enrollments are read, enabled and removed by their address, account and client name.
pub proof fn law_runtime_reads_enrollments(
    runtime: &StateRuntime,
    websocket_url: &str,
    account_id: &str,
    client_name: Option<&str>,
    result: Result<Option<RemoteControlEnrollmentRecord>, EnrollmentError>,
)
    requires
        call_ensures(StateRuntime::get_remote_control_enrollment, (runtime, websocket_url, account_id, client_name), result),
    ensures
        result is Err <==> runtime@.enrollments.closed,
        ({
            let key = key_for(websocket_url@, account_id@, client_name);
            &&& result is Ok ==> (result->Ok_0 is Some <==> runtime@.enrollments.enrollments.contains_key(key))
            &&& result is Ok && result->Ok_0 is Some ==> result->Ok_0->0@ == runtime@.enrollments.enrollments[key]
        }),
{
}

/// Remote control is enabled or disabled for the enrollment with the given values alone.
pub proof fn law_runtime_enables_remote_control(
    runtime: &mut StateRuntime,
    websocket_url: &str,
    account_id: &str,
    client_name: Option<&str>,
    enabled: bool,
    result: Result<u64, EnrollmentError>,
)
    requires
        call_ensures(StateRuntime::set_remote_control_enabled, (runtime, websocket_url, account_id, client_name, enabled), result),
    ensures
        result is Err <==> old(runtime)@.enrollments.closed,
        result is Err ==> final(runtime)@ == old(runtime)@,
        final(runtime)@.threads == old(runtime)@.threads,
        result is Ok ==> {
            let key = key_for(websocket_url@, account_id@, client_name);
            &&& result->Ok_0 == (if old(runtime)@.enrollments.enrollments.contains_key(key) {
                1int
            } else {
                0
            })
            &&& old(runtime)@.enrollments.enrollments.contains_key(key) ==> final(runtime)@.enrollments.enrollments[key].remote_control_enabled == Some(enabled)
                && final(runtime)@.enrollments.enrollments[key].server_id == old(runtime)@.enrollments.enrollments[key].server_id
        },
{
}

/// The enrollment with the given values is removed, and no other.
pub proof fn law_runtime_removes_enrollments(
    runtime: &mut StateRuntime,
    websocket_url: &str,
    account_id: &str,
    client_name: Option<&str>,
    result: Result<u64, EnrollmentError>,
)
    requires
        call_ensures(StateRuntime::delete_remote_control_enrollment, (runtime, websocket_url, account_id, client_name), result),
    ensures
        result is Err <==> old(runtime)@.enrollments.closed,
        result is Err ==> final(runtime)@ == old(runtime)@,
        final(runtime)@.threads == old(runtime)@.threads,
        result is Ok ==> {
            let key = key_for(websocket_url@, account_id@, client_name);
            &&& result->Ok_0 == (if old(runtime)@.enrollments.enrollments.contains_key(key) {
                1int
            } else {
                0
            })
            &&& !final(runtime)@.enrollments.enrollments.contains_key(key)
        },
{
}

/// An enrollment is stored as it was given, but whether remote control is enabled stays for one that was
/// there.
pub proof fn law_runtime_stores_enrollments(runtime: &mut StateRuntime, enrollment: &RemoteControlEnrollmentRecord, result: Result<(), EnrollmentError>)
    requires
        call_ensures(StateRuntime::upsert_remote_control_enrollment, (runtime, enrollment), result),
        enrollment.app_server_client_name is Some && enrollment.app_server_client_name->0@.len() > 0,
    ensures
        result is Err <==> old(runtime)@.enrollments.closed,
        result is Err ==> final(runtime)@ == old(runtime)@,
        final(runtime)@.threads == old(runtime)@.threads,
        result is Ok ==> {
            let key = crate::remote_control::EnrollmentKeyView {
                websocket_url: enrollment.websocket_url@,
                account_id: enrollment.account_id@,
                client_name: enrollment.app_server_client_name->0@,
            };
            let stored = final(runtime)@.enrollments.enrollments[key];
            &&& final(runtime)@.enrollments.enrollments.contains_key(key)
            &&& stored.server_id == enrollment.server_id@
            &&& stored.environment_id == enrollment.environment_id@
            &&& stored.server_name == enrollment.server_name@
            &&& old(runtime)@.enrollments.enrollments.contains_key(key) ==> stored.remote_control_enabled == old(runtime)@.enrollments.enrollments[key].remote_control_enabled
            &&& !old(runtime)@.enrollments.enrollments.contains_key(key) ==> stored.remote_control_enabled == enrollment.remote_control_enabled
        },
{
}

/// The outputs that the runtime state lists, or selects, belong to its threads and may be used.
pub proof fn law_runtime_lists_usable_outputs(runtime: &StateRuntime, n: usize, outputs: Vec<Stage1Output>, i: int)
    requires
        call_ensures(StateRuntime::list_stage1_outputs_for_global, (runtime, n), Ok::<Vec<Stage1Output>, MemoryStoreError>(outputs)),
        runtime@.memories.keyed(),
        0 <= i < outputs@.len(),
    ensures
        ({
            let thread_id = outputs@[i].thread_id;
            &&& runtime@.memories.outputs.contains_key(thread_id)
            &&& may_be_used(runtime@.memories.outputs[thread_id], runtime@.threads)
            &&& tells_of(outputs@[i], runtime@.memories.outputs[thread_id], runtime@.threads[thread_id])
        }),
{
    let threads = choose|threads: &Table<ThreadRow>| threads@ == runtime@.threads && #[trigger] lists_for_global(
        runtime@.memories,
        threads,
        n,
        Ok::<Vec<Stage1Output>, MemoryStoreError>(outputs),
    );
    crate::memory_store::output_laws::lemma_listed(runtime@.memories, threads, n, outputs);
}

/// What the runtime state selects for phase two belongs to its threads and may be used; nothing that is recent
/// enough is left out for what was used less often or, as often, less recently.
pub proof fn law_runtime_selects_what_is_used_most_and_last(
    runtime: &StateRuntime,
    n: usize,
    max_unused_days: i64,
    now: i64,
    outputs: Vec<Stage1Output>,
    i: int,
    other: ThreadId,
)
    requires
        call_ensures(
            StateRuntime::get_phase2_input_selection,
            (runtime, n, max_unused_days, now),
            Ok::<Vec<Stage1Output>, MemoryStoreError>(outputs),
        ),
        runtime@.memories.keyed(),
        days_before(now, max_unused_days) >= i64::MIN,
        max_unused_days * 24 * 60 * 60 <= i64::MAX,
        0 <= i < outputs@.len(),
    ensures
        outputs@.len() <= n,
        ({
            let chosen = runtime@.memories.outputs[outputs@[i].thread_id];
            let left = runtime@.memories.outputs[other];
            &&& runtime@.memories.outputs.contains_key(outputs@[i].thread_id)
            &&& may_be_used(chosen, runtime@.threads)
            &&& fresh_as_of(chosen) >= days_before(now, max_unused_days)
            &&& runtime@.memories.outputs.contains_key(other) && may_be_used(left, runtime@.threads) && fresh_as_of(left) >= days_before(now, max_unused_days) && (forall|k: int|
                #![trigger outputs@[k]]
                0 <= k < outputs@.len() ==> outputs@[k].thread_id != other) ==> {
                &&& outputs@.len() == n
                &&& times_used(chosen) >= times_used(left)
                &&& times_used(chosen) == times_used(left) ==> fresh_as_of(chosen) >= fresh_as_of(left)
            }
        }),
{
    let threads = choose|threads: &Table<ThreadRow>| threads@ == runtime@.threads && #[trigger] selects_for_phase2(
        runtime@.memories,
        threads,
        n,
        max_unused_days,
        now,
        Ok::<Vec<Stage1Output>, MemoryStoreError>(outputs),
    );
    lemma_selected(runtime@.memories, threads, n, max_unused_days, now, outputs);
    let left = runtime@.memories.outputs[other];
    if runtime@.memories.outputs.contains_key(other) && may_be_used(left, runtime@.threads) && fresh_as_of(left) >= days_before(now, max_unused_days) && (forall|k: int|
        #![trigger outputs@[k]]
        0 <= k < outputs@.len() ==> outputs@[k].thread_id != other) {
        lemma_preferred(runtime@.memories, threads, n, max_unused_days, now, outputs, i, other);
    }
}

/// Detected pollution ends the use of a thread that was not polluted before. Nothing changes but that thread and
/// the global job, and that only where the last consolidation rests on the output of the thread.
pub proof fn law_runtime_records_pollution(runtime: &mut StateRuntime, thread_id: ThreadId, now: i64, result: Result<bool, MemoryStoreError>)
    requires
        call_ensures(StateRuntime::mark_thread_memory_mode_polluted, (runtime, thread_id, now), result),
    ensures
        result is Err ==> final(runtime)@ == old(runtime)@,
        old(runtime)@.memories.closed ==> result is Err,
        result is Ok && !old(runtime)@.threads.contains_key(thread_id) ==> !result->Ok_0 && final(runtime)@.threads == old(runtime)@.threads,
        result is Ok && old(runtime)@.threads.contains_key(thread_id) ==> {
            let before = old(runtime)@.threads[thread_id];
            let after = final(runtime)@.threads[thread_id];
            let polluted = before.memory_mode@ == "polluted"@ || before.polluted_at_stream_version is Some && before.polluted_at_stream_version->0 > before.memory_mode_ordinal;
            &&& result->Ok_0 == !polluted
            &&& polluted ==> final(runtime)@.threads == old(runtime)@.threads
            &&& after.metadata == before.metadata
            &&& !polluted && old(runtime)@.memories.backend is Sqlite ==> after.memory_mode@ == "polluted"@
            &&& !polluted && old(runtime)@.memories.backend is Postgresql ==> after.memory_mode == before.memory_mode && after.polluted_at_stream_version == Some(
                before.stream_version,
            )
        },
        final(runtime)@.memories.outputs == old(runtime)@.memories.outputs,
        final(runtime)@.memories.jobs == old(runtime)@.memories.jobs,
        result is Ok && old(runtime)@.threads.contains_key(thread_id) && old(runtime)@.memories.outputs.contains_key(thread_id)
            && old(runtime)@.memories.outputs[thread_id].selected_for_phase2 ==> final(runtime)@.memories.global_job is Some
            && final(runtime)@.memories.global_job->0.input_watermark is Some && final(runtime)@.memories.global_job->0.input_watermark->0 >= now,
        !(old(runtime)@.memories.outputs.contains_key(thread_id) && old(runtime)@.memories.outputs[thread_id].selected_for_phase2) ==> final(runtime)@.memories
            == old(runtime)@.memories,
        final(runtime)@.goals == old(runtime)@.goals,
        final(runtime)@.logs == old(runtime)@.logs,
        final(runtime)@.spawn_edges == old(runtime)@.spawn_edges,
{
    if result is Ok && old(runtime)@.threads.contains_key(thread_id) {
        let before = old(runtime)@.threads[thread_id];
        if crate::memory_store::startup::is_pollution_news(before) {
            let row = choose|row: ThreadRow| #[trigger]
                crate::memory_store::startup::is_polluted_version(old(runtime)@.memories.backend, before, row) && final(runtime)@.threads == old(runtime)@.threads.insert(
                    thread_id,
                    row,
                );
        }
    }
}

/// Each job claimed at startup is that of a thread that may be claimed, and runs for the current thread under
/// the token of the claim.
pub proof fn law_runtime_claims_at_startup(
    runtime: &mut StateRuntime,
    current: ThreadId,
    params: Stage1StartupClaimParams<'_>,
    now_ms: i64,
    claims: Vec<Stage1JobClaim>,
    i: int,
)
    requires
        call_ensures(
            StateRuntime::claim_stage1_jobs_for_startup,
            (runtime, current, params, now_ms),
            Ok::<Vec<Stage1JobClaim>, MemoryStoreError>(claims),
        ),
        has_countable_spans(params),
        old(runtime)@.keyed(),
    ensures
        claims@.len() <= params.max_claimed,
        final(runtime)@.threads == old(runtime)@.threads,
        final(runtime)@.memories.outputs == old(runtime)@.memories.outputs,
        0 <= i < claims@.len() ==> {
            let thread = claims@[i].thread;
            let job = final(runtime)@.memories.jobs[thread.id].job;
            &&& old(runtime)@.threads.contains_key(thread.id)
            &&& old(runtime)@.threads[thread.id].metadata == thread
            &&& may_be_claimed(old(runtime)@.threads[thread.id], current, params, now_ms)
            &&& job.status == MemoryJobStatus::Running
            &&& job.ownership_token == Some(claims@[i].ownership_token@)
            &&& job.worker_id == Some(current)
            &&& job.input_watermark is Some && job.input_watermark->0 == thread.updated_at as int / 1000
        },
{
    lemma_startup_claims(old(runtime)@.memories, old(runtime)@.threads, current, params, now_ms, final(runtime)@.memories, claims);
}

/// A thread row is put in place of the one with the same identifier, and changes nothing else.
pub proof fn law_row_is_put(runtime: &mut StateRuntime, row: ThreadRow)
    requires
        call_ensures(StateRuntime::put_thread_row, (runtime, row), ()),
    ensures
        final(runtime)@.threads.contains_key(row.metadata.id),
        final(runtime)@.threads[row.metadata.id] == row,
        other_threads_stay(old(runtime)@, final(runtime)@, row.metadata.id),
{
}

} // verus!
