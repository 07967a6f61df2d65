//! Threads: their metadata, sections, relations and listings.

pub mod model;

pub use model::clone_text;
pub use model::DirectionalThreadSpawnEdgeStatus;
pub use model::ThreadHistoryMode;
pub use model::ThreadMetadata;
pub use model::ThreadRow;
pub use model::ThreadSection;
pub use model::ThreadSectionAppearance;
pub use model::ThreadSpawnEdge;
