//! Laws of the messages that errors are shown with.

use crate::backfill::BackfillError;
use crate::backfill::BackfillOperation;
use crate::external_agent_config_imports::ExternalAgentImportError;
use crate::external_agent_config_imports::ImportRecordError;
use crate::goals::GoalStoreError;
use crate::log_store::LogStoreError;
use crate::memory_store::MemoryArtifactError;
use crate::memory_store::MemoryStoreError;
use crate::outside::uuid_text;
use crate::remote_control::EnrollmentError;
use crate::remote_control::EnrollmentOperation;
use crate::rows::RowError;
use crate::runtime::deletion::DeleteThreadsError;
use crate::runtime::metadata::ThreadStoreError;
use crate::runtime::relations::ThreadRelationError;
use crate::runtime::section_order::SectionMoveError;
use crate::runtime::sections::ThreadSectionError;
use crate::text::zero_padded;
use vstd::prelude::*;

verus! {

/// An error that carries another one is shown with the message of that one.
pub proof fn law_carried_errors_speak_for_themselves(
    artifact: &MemoryArtifactError,
    artifact_text: String,
    memory: &MemoryStoreError,
    memory_text: String,
    import: &ExternalAgentImportError,
    import_text: String,
    record: &ImportRecordError,
    record_text: String,
    logs: &LogStoreError,
    logs_text: String,
    goals: &GoalStoreError,
    goals_text: String,
    deletion: &DeleteThreadsError,
    deletion_text: String,
)
    requires
        call_ensures(MemoryArtifactError::message, (artifact,), artifact_text),
        call_ensures(MemoryStoreError::message, (memory,), memory_text),
        call_ensures(ExternalAgentImportError::message, (import,), import_text),
        call_ensures(ImportRecordError::message, (record,), record_text),
        call_ensures(LogStoreError::message, (logs,), logs_text),
        call_ensures(GoalStoreError::message, (goals,), goals_text),
        call_ensures(DeleteThreadsError::message, (deletion,), deletion_text),
    ensures
        *memory == MemoryStoreError::Artifact(*artifact) ==> memory_text@ == artifact_text@,
        *import == ExternalAgentImportError::Artifact(*artifact) ==> import_text@ == artifact_text@,
        *record == ImportRecordError::Import(*import) ==> record_text@ == import_text@,
        *record == ImportRecordError::Memory(*memory) ==> record_text@ == memory_text@,
        *deletion == DeleteThreadsError::Logs(*logs) ==> deletion_text@ == logs_text@,
        *deletion == DeleteThreadsError::Memory(*memory) ==> deletion_text@ == memory_text@,
        *deletion == DeleteThreadsError::Goals(*goals) ==> deletion_text@ == goals_text@,
{
}

/// An error about a value is shown with that value.
pub proof fn law_messages_name_what_is_wrong(
    artifact: &MemoryArtifactError,
    artifact_text: String,
    moved: &SectionMoveError,
    moved_text: String,
    section: &ThreadSectionError,
    section_text: String,
    relation: &ThreadRelationError,
    relation_text: String,
    row: &RowError,
    row_text: String,
    memory: &MemoryStoreError,
    memory_text: String,
)
    requires
        call_ensures(MemoryArtifactError::message, (artifact,), artifact_text),
        call_ensures(SectionMoveError::message, (moved,), moved_text),
        call_ensures(ThreadSectionError::message, (section,), section_text),
        call_ensures(ThreadRelationError::message, (relation,), relation_text),
        call_ensures(RowError::message, (row,), row_text),
        call_ensures(MemoryStoreError::message, (memory,), memory_text),
    ensures
        artifact is CaseCollision ==> artifact_text@ == "Memory Artifact set contains a case-insensitive collision at "@ + artifact->CaseCollision_0@,
        artifact is FileDirectoryCollision ==> artifact_text@ == "Memory Artifact set contains a file-directory collision at "@ + artifact->FileDirectoryCollision_0@,
        moved is NoSection ==> moved_text@ == "section "@ + moved->NoSection_0@ + " does not exist"@,
        moved is BeforeItself ==> moved_text@ == "thread "@ + uuid_text(moved->BeforeItself_0.value) + " cannot be moved before itself"@,
        moved is BeforeElsewhere ==> moved_text@ == "before thread "@ + uuid_text(moved->before.value) + " is not in section "@ + moved->section@,
        moved is NoPositions ==> moved_text@ == "section "@ + moved->NoPositions_0@ + " has no remaining thread positions"@,
        section is Exists ==> section_text@ == "section "@ + section->Exists_0@ + " already exists"@,
        relation is AmbiguousPath ==> relation_text@ == "multiple agents found for canonical path `"@ + relation->AmbiguousPath_0@ + "`"@,
        row is Timestamp ==> row_text@ == "invalid unix timestamp: "@ + zero_padded(row->Timestamp_0 as int, 0),
        memory is Timestamp ==> memory_text@ == "invalid unix timestamp: "@ + zero_padded(memory->Timestamp_0 as int, 0),
{
}

/// An error of persistence is shown with the operation that it befell.
pub proof fn law_messages_name_the_operation(backfill: &BackfillError, backfill_text: String, enrollment: &EnrollmentError, enrollment_text: String)
    requires
        call_ensures(BackfillError::message, (backfill,), backfill_text),
        call_ensures(EnrollmentError::message, (enrollment,), enrollment_text),
    ensures
        backfill is Persistence ==> backfill_text@ == "Runtime State could not complete the `"@ + (match backfill->Persistence_0 {
            BackfillOperation::State => "read backfill state"@,
            BackfillOperation::Claim => "claim backfill"@,
            BackfillOperation::Run => "run backfill"@,
            BackfillOperation::Heartbeat => "heartbeat backfill"@,
            BackfillOperation::Checkpoint => "checkpoint backfill"@,
            BackfillOperation::Release => "release backfill"@,
            BackfillOperation::Complete => "complete backfill"@,
        }) + "` operation; verify backfill coordination persistence health, then retry"@,
        enrollment_text@ == "Runtime State could not complete the `"@ + (match enrollment.operation {
            EnrollmentOperation::Get => "get remote control enrollment"@,
            EnrollmentOperation::Upsert => "upsert remote control enrollment"@,
            EnrollmentOperation::SetEnabled => "set remote control enabled"@,
            EnrollmentOperation::Delete => "delete remote control enrollment"@,
        }) + "` operation; verify enrollment persistence health, then retry"@,
{
}

/// Errors without a value are shown with messages of their own.
pub proof fn law_messages_of_plain_errors(
    backfill: &BackfillError,
    backfill_text: String,
    thread: &ThreadStoreError,
    thread_text: String,
    logs: &LogStoreError,
    logs_text: String,
    artifact: &MemoryArtifactError,
    artifact_text: String,
    import: &ExternalAgentImportError,
    import_text: String,
    memory: &MemoryStoreError,
    memory_text: String,
)
    requires
        call_ensures(BackfillError::message, (backfill,), backfill_text),
        call_ensures(ThreadStoreError::message, (thread,), thread_text),
        call_ensures(LogStoreError::message, (logs,), logs_text),
        call_ensures(MemoryArtifactError::message, (artifact,), artifact_text),
        call_ensures(ExternalAgentImportError::message, (import,), import_text),
        call_ensures(MemoryStoreError::message, (memory,), memory_text),
    ensures
        backfill is EmptyOwner ==> backfill_text@ == "backfill owner ID must not be empty"@,
        backfill is LeaseTooLong ==> backfill_text@ == "backfill lease duration exceeds supported range"@,
        backfill is LocalOnly ==> backfill_text@ == "the operation needs the local SQLite runtime state"@,
        thread is LocalOnly ==> thread_text@ == "the operation needs the local SQLite runtime state"@,
        thread is TimestampOutOfRange ==> thread_text@ == "thread timestamp is out of range"@,
        logs is NoCanonicalThread ==> logs_text@
            == "Runtime State could not complete the `insert thread logs` operation; verify canonical thread state, then retry"@,
        logs is EntryTooLarge ==> logs_text@ == "log entry size exceeds supported range"@,
        logs is IdentifiersExhausted ==> logs_text@ == "log identifiers are exhausted"@,
        logs is Closed ==> logs_text@ == "log store is closed"@,
        artifact is EmptyPath ==> artifact_text@ == "Memory Artifact path must not be empty"@,
        artifact is NotPortable ==> artifact_text@ == "Memory Artifact path must use portable relative components"@,
        import is NoProject ==> import_text@ == "external-agent Memory Artifact publication requires a selected project"@,
        import is KeyNotComponent ==> import_text@ == "external-agent memory project keys must be one portable path component"@,
        import is OutsideProjects ==> import_text@ == "external-agent Memory Artifact is outside the selected project replacements"@,
        import is Reused ==> import_text@ == "external-agent import identifier was reused with different Memory Artifacts"@,
        memory is OutOfRange ==> memory_text@ == "memory job value exceeds supported range"@,
        memory is MissingWatermark ==> memory_text@ == "claimed memory job has no input watermark"@,
        memory is TooManyArtifacts ==> memory_text@ == "Memory Generation artifact count exceeds supported range"@,
        memory is GenerationTooLarge ==> memory_text@ == "Memory Generation size exceeds supported range"@,
        memory is CountMismatch ==> memory_text@ == "active Memory Generation artifact count does not match its contents"@,
        memory is BytesMismatch ==> memory_text@ == "active Memory Generation byte count does not match its contents"@,
        memory is Closed ==> memory_text@ == "memory store is closed"@,
{
}

} // verus!
