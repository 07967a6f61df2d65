//! Runtime state of a coding agent: thread goals, memory jobs, logs, imports and thread metadata.
//!
//! Every store keeps its rows in keyed tables. Its operations are total functions of the rows and
//! of the values that come from outside (the clock, fresh identifiers), and each contract says
//! what the operation returns and what it leaves in the tables.

pub mod backend;
pub mod backfill;
pub mod external_agent_config_imports;
pub mod goals;
pub mod log_store;
pub mod memory_store;
pub mod message_laws;
pub mod outside;
pub mod remote_control;
pub mod row_laws;
pub mod rows;
pub mod runtime;
pub mod sequences;
pub mod table;
pub mod text;
pub mod text_laws;
pub mod thread_id;
pub mod threads;
pub mod time;

pub use backend::PostgresNamespaceConfig;
pub use backend::RuntimeStateBackend;
pub use backend::RuntimeStateBackendConfig;
pub use backend::SqliteConfig;
pub use backfill::BackfillClaimOutcome;
pub use backfill::BackfillCoordinator;
pub use backfill::BackfillError;
pub use backfill::BackfillLease;
pub use backfill::BackfillLeaseUpdate;
pub use backfill::BackfillOperation;
pub use backfill::BackfillRow;
pub use backfill::BackfillState;
pub use backfill::BackfillStatus;
pub use external_agent_config_imports::ExternalAgentConfigImportDetailsRecord;
pub use external_agent_config_imports::ExternalAgentConfigImportFailureRecord;
pub use external_agent_config_imports::ExternalAgentConfigImportHistoryRecord;
pub use external_agent_config_imports::ExternalAgentConfigImportStore;
pub use external_agent_config_imports::ExternalAgentConfigImportSuccessRecord;
pub use external_agent_config_imports::ExternalAgentImportError;
pub use external_agent_config_imports::ExternalAgentMemoryImport;
pub use external_agent_config_imports::ImportRecordError;
pub use external_agent_config_imports::ImportRow;
pub use goals::GoalAccountingEvent;
pub use goals::GoalAccountingMode;
pub use goals::GoalAccountingOutcome;
pub use goals::GoalAccountingRequest;
pub use goals::GoalAccountingTarget;
pub use goals::GoalStore;
pub use goals::GoalStoreError;
pub use goals::GoalStoreErrorKind;
pub use goals::GoalStoreFailure;
pub use goals::GoalStoreOperation;
pub use goals::GoalStoreResult;
pub use goals::GoalUpdate;
pub use goals::ThreadGoal;
pub use goals::ThreadGoalStatus;
pub use log_store::LogEntry;
pub use log_store::LogQuery;
pub use log_store::LogRow;
pub use log_store::LogStore;
pub use log_store::LogStoreError;
pub use log_store::StoredLog;
pub use memory_store::HistoryItem;
pub use memory_store::MemoryArtifact;
pub use memory_store::MemoryArtifactError;
pub use memory_store::MemoryArtifactSet;
pub use memory_store::MemoryGeneration;
pub use memory_store::MemoryGenerationRow;
pub use memory_store::MemoryJob;
pub use memory_store::MemoryJobStatus;
pub use memory_store::MemoryStore;
pub use memory_store::MemoryStoreError;
pub use memory_store::MemoryWorkspaceMaterialization;
pub use memory_store::Phase2JobClaimOutcome;
pub use memory_store::Stage1Job;
pub use memory_store::Stage1JobClaim;
pub use memory_store::Stage1JobClaimOutcome;
pub use memory_store::Stage1Output;
pub use memory_store::Stage1OutputRow;
pub use memory_store::Stage1StartupClaimParams;
pub use memory_store::StoredArtifact;
pub use memory_store::ThreadProjection;
pub use remote_control::EnrollmentError;
pub use remote_control::EnrollmentOperation;
pub use remote_control::RemoteControlEnrollmentRecord;
pub use remote_control::RemoteControlEnrollmentStore;
pub use rows::BackfillStateRow;
pub use rows::RowError;
pub use rows::Stage1OutputJoinRow;
pub use rows::ThreadGoalRow;
pub use runtime::deletion::DeleteThreadsError;
pub use runtime::listing::SpawnedBy;
pub use runtime::listing::ThreadsPage;
pub use runtime::metadata::ThreadResumeMetadata;
pub use runtime::metadata::ThreadStoreError;
pub use runtime::query::Anchor;
pub use runtime::query::SortDirection;
pub use runtime::query::SortKey;
pub use runtime::query::SqlBind;
pub use runtime::query::SqlQuery;
pub use runtime::query::ThreadFilterOptions;
pub use runtime::query::ThreadRelationFilter;
pub use runtime::relations::ThreadRelationError;
pub use runtime::section_order::SectionMoveError;
pub use runtime::section_order::ThreadSectionPlace;
pub use runtime::sections::ThreadSectionError;
pub use runtime::sections::ThreadSectionsPage;
pub use runtime::StateRuntime;
pub use table::Table;
pub use thread_id::ThreadId;
pub use threads::DirectionalThreadSpawnEdgeStatus;
pub use threads::ThreadHistoryMode;
pub use threads::ThreadMetadata;
pub use threads::ThreadRow;
pub use threads::ThreadSection;
pub use threads::ThreadSectionAppearance;
pub use threads::ThreadSpawnEdge;
