//! What is known of a thread.

use crate::table::Row;
use crate::text::same_text;
use crate::thread_id::ThreadId;
use vstd::prelude::*;

verus! {

/// How the history of a thread is kept.
#[derive(Clone, Copy, Debug, PartialEq, Eq, Structural)]
pub enum ThreadHistoryMode {
    Legacy,
    Paginated,
}

/// The stored name of a history mode.
pub open spec fn history_mode_text(mode: ThreadHistoryMode) -> Seq<char> {
    match mode {
        ThreadHistoryMode::Legacy => "legacy"@,
        ThreadHistoryMode::Paginated => "paginated"@,
    }
}

impl ThreadHistoryMode {
    /// The stored name.
    pub fn as_str(self) -> (text: &'static str)
        ensures
            text@ == history_mode_text(self),
    {
        match self {
            Self::Legacy => "legacy",
            Self::Paginated => "paginated",
        }
    }

    /// What the given stored name stands for.
    pub fn from_stored(text: &str) -> (mode: Option<Self>)
        ensures
            match mode {
                Some(mode) => text@ == history_mode_text(mode),
                None => forall|mode: ThreadHistoryMode| text@ != #[trigger] history_mode_text(mode),
            },
    {
        if same_text(text, "legacy") {
            Some(Self::Legacy)
        } else if same_text(text, "paginated") {
            Some(Self::Paginated)
        } else {
            None
        }
    }
}

/// How a section looks, as the serialized text that clients exchange.
#[derive(Debug, PartialEq, Eq)]
pub struct ThreadSectionAppearance {
    pub json: String,
}

impl Clone for ThreadSectionAppearance {
    fn clone(&self) -> (copy: Self)
        ensures
            copy == *self,
    {
        ThreadSectionAppearance { json: self.json.clone() }
    }
}

/// A named group of threads.
#[derive(Debug, PartialEq, Eq)]
pub struct ThreadSection {
    pub id: String,
    pub name: String,
    pub appearance: Option<ThreadSectionAppearance>,
}

impl View for ThreadSection {
    type V = ThreadSection;

    open spec fn view(&self) -> ThreadSection {
        *self
    }
}

impl Clone for ThreadSection {
    fn clone(&self) -> (copy: Self)
        ensures
            copy == *self,
    {
        ThreadSection {
            id: self.id.clone(),
            name: self.name.clone(),
            appearance: match &self.appearance {
                Some(appearance) => Some(appearance.clone()),
                None => None,
            },
        }
    }
}

impl Row for ThreadSection {
    type Key = String;

    open spec fn key_of(row: ThreadSection) -> Seq<char> {
        row.id@
    }

    fn has_key(&self, key: &String) -> (found: bool) {
        self.id == *key
    }

    fn same_key(&self, other: &Self) -> (same: bool) {
        self.id == other.id
    }

    fn duplicate(&self) -> (copy: Self) {
        self.clone()
    }
}

/// The metadata of a thread. Times are milliseconds since the Unix epoch.
#[derive(Debug, PartialEq, Eq)]
pub struct ThreadMetadata {
    pub id: ThreadId,
    pub rollout_path: String,
    pub created_at: i64,
    pub updated_at: i64,
    pub recency_at: i64,
    pub source: String,
    pub history_mode: ThreadHistoryMode,
    pub thread_source: Option<String>,
    pub agent_nickname: Option<String>,
    pub agent_role: Option<String>,
    pub agent_path: Option<String>,
    pub model_provider: String,
    pub model: Option<String>,
    pub reasoning_effort: Option<String>,
    pub cwd: String,
    pub cli_version: String,
    pub title: String,
    pub name: Option<String>,
    pub preview: Option<String>,
    pub sandbox_policy: String,
    pub approval_mode: String,
    pub tokens_used: i64,
    pub first_user_message: Option<String>,
    pub archived_at: Option<i64>,
    pub section: Option<ThreadSection>,
    pub section_position: Option<i64>,
    pub section_entered_at: Option<i64>,
    pub is_pinned: bool,
    pub git_sha: Option<String>,
    pub git_branch: Option<String>,
    pub git_origin_url: Option<String>,
    pub repository_identity: Option<String>,
}

impl View for ThreadMetadata {
    type V = ThreadMetadata;

    open spec fn view(&self) -> ThreadMetadata {
        *self
    }
}

/// A copy of an optional text.
pub fn clone_text(value: &Option<String>) -> (copy: Option<String>)
    ensures
        copy == *value,
{
    match value {
        Some(text) => Some(text.clone()),
        None => None,
    }
}

impl Clone for ThreadMetadata {
    fn clone(&self) -> (copy: Self)
        ensures
            copy == *self,
    {
        ThreadMetadata {
            id: self.id,
            rollout_path: self.rollout_path.clone(),
            created_at: self.created_at,
            updated_at: self.updated_at,
            recency_at: self.recency_at,
            source: self.source.clone(),
            history_mode: self.history_mode,
            thread_source: clone_text(&self.thread_source),
            agent_nickname: clone_text(&self.agent_nickname),
            agent_role: clone_text(&self.agent_role),
            agent_path: clone_text(&self.agent_path),
            model_provider: self.model_provider.clone(),
            model: clone_text(&self.model),
            reasoning_effort: clone_text(&self.reasoning_effort),
            cwd: self.cwd.clone(),
            cli_version: self.cli_version.clone(),
            title: self.title.clone(),
            name: clone_text(&self.name),
            preview: clone_text(&self.preview),
            sandbox_policy: self.sandbox_policy.clone(),
            approval_mode: self.approval_mode.clone(),
            tokens_used: self.tokens_used,
            first_user_message: clone_text(&self.first_user_message),
            archived_at: self.archived_at,
            section: match &self.section {
                Some(section) => Some(section.clone()),
                None => None,
            },
            section_position: self.section_position,
            section_entered_at: self.section_entered_at,
            is_pinned: self.is_pinned,
            git_sha: clone_text(&self.git_sha),
            git_branch: clone_text(&self.git_branch),
            git_origin_url: clone_text(&self.git_origin_url),
            repository_identity: clone_text(&self.repository_identity),
        }
    }
}

/// A stored thread: its metadata, and what decides whether memory may be drawn from it.
#[derive(Debug, PartialEq, Eq)]
pub struct ThreadRow {
    pub metadata: ThreadMetadata,
    /// The memory mode last recorded in the history of the thread.
    pub memory_mode: String,
    /// Position of that record in the history; -1 without a record.
    pub memory_mode_ordinal: i64,
    /// Number of items in the history.
    pub stream_version: i64,
    /// Length of the history when pollution was detected.
    pub polluted_at_stream_version: Option<i64>,
    /// Whether a rollout path is recorded. A shared database may hold threads without one; the
    /// path in their metadata is then empty.
    pub has_rollout_path: bool,
}

impl View for ThreadRow {
    type V = ThreadRow;

    open spec fn view(&self) -> ThreadRow {
        *self
    }
}

impl Clone for ThreadRow {
    fn clone(&self) -> (copy: Self)
        ensures
            copy == *self,
    {
        ThreadRow {
            metadata: self.metadata.clone(),
            memory_mode: self.memory_mode.clone(),
            memory_mode_ordinal: self.memory_mode_ordinal,
            stream_version: self.stream_version,
            polluted_at_stream_version: self.polluted_at_stream_version,
            has_rollout_path: self.has_rollout_path,
        }
    }
}

impl Row for ThreadRow {
    type Key = ThreadId;

    open spec fn key_of(row: ThreadRow) -> ThreadId {
        row.metadata.id
    }

    fn has_key(&self, key: &ThreadId) -> (found: bool) {
        assert(key@ == *key);
        self.metadata.id == *key
    }

    fn same_key(&self, other: &Self) -> (same: bool) {
        self.metadata.id == other.metadata.id
    }

    fn duplicate(&self) -> (copy: Self) {
        self.clone()
    }
}

/// Whether a spawned thread is still worked with.
#[derive(Clone, Copy, Debug, PartialEq, Eq, Structural)]
pub enum DirectionalThreadSpawnEdgeStatus {
    Open,
    Closed,
}

pub open spec fn edge_status_text(status: DirectionalThreadSpawnEdgeStatus) -> Seq<char> {
    match status {
        DirectionalThreadSpawnEdgeStatus::Open => "open"@,
        DirectionalThreadSpawnEdgeStatus::Closed => "closed"@,
    }
}

impl DirectionalThreadSpawnEdgeStatus {
    /// The stored name of the status.
    pub fn as_str(self) -> (text: &'static str)
        ensures
            text@ == edge_status_text(self),
    {
        match self {
            Self::Open => "open",
            Self::Closed => "closed",
        }
    }

    /// What the given stored name stands for.
    pub fn from_stored(text: &str) -> (status: Option<Self>)
        ensures
            match status {
                Some(status) => text@ == edge_status_text(status),
                None => forall|status: DirectionalThreadSpawnEdgeStatus| text@ != #[trigger] edge_status_text(status),
            },
    {
        if same_text(text, "open") {
            Some(Self::Open)
        } else if same_text(text, "closed") {
            Some(Self::Closed)
        } else {
            None
        }
    }
}

/// The edge from a thread to one that it spawned.
#[derive(Clone, Copy, Debug, PartialEq, Eq, Structural)]
pub struct ThreadSpawnEdge {
    pub parent_thread_id: ThreadId,
    pub child_thread_id: ThreadId,
    pub status: DirectionalThreadSpawnEdgeStatus,
}

impl View for ThreadSpawnEdge {
    type V = ThreadSpawnEdge;

    open spec fn view(&self) -> ThreadSpawnEdge {
        *self
    }
}

impl Row for ThreadSpawnEdge {
    type Key = ThreadId;

    open spec fn key_of(row: ThreadSpawnEdge) -> ThreadId {
        row.child_thread_id
    }

    fn has_key(&self, key: &ThreadId) -> (found: bool) {
        assert(key@ == *key);
        self.child_thread_id == *key
    }

    fn same_key(&self, other: &Self) -> (same: bool) {
        self.child_thread_id == other.child_thread_id
    }

    fn duplicate(&self) -> (copy: Self) {
        *self
    }
}

} // verus!
