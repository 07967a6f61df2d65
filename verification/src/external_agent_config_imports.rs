//! Completed imports from external agents, and the memory they bring along.

pub mod effect_laws;
pub mod fingerprint;
pub mod laws;
pub mod memory_import;
pub mod overlay_laws;
pub mod records;
pub mod store;

pub use fingerprint::fingerprint_bytes;
pub use fingerprint::fingerprint_input;
pub use fingerprint::memory_import_fingerprint;
pub use memory_import::extension_prefix;
pub use memory_import::overlaid;
pub use memory_import::overlay_artifacts;
pub use memory_import::ExternalAgentImportError;
pub use memory_import::ExternalAgentMemoryImport;
pub use memory_import::ExternalAgentMemoryImportView;
pub use records::ExternalAgentConfigImportDetailsRecord;
pub use records::ExternalAgentConfigImportFailureRecord;
pub use records::ExternalAgentConfigImportHistoryRecord;
pub use records::ExternalAgentConfigImportSuccessRecord;
pub use store::memory_completion;
pub use store::AllImports;
pub use store::CompletionView;
pub use store::ExternalAgentConfigImportStore;
pub use store::ImportRecordError;
pub use store::ImportRow;
pub use store::ImportRowView;
pub use store::ImportStoreView;
pub use store::LatestFirst;
