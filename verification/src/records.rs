//! Plain records and errors shared by the surfaces: history pages, text
//! action snapshots, and the errors of the runner, storage, files and the
//! platform shell.
use vstd::prelude::*;

use crate::execution::{ExecutionStatus, StorageState};
use crate::ids::InvocationId;
use crate::plugin::QualifiedActionId;
use crate::text::concat;

verus! {

/// What a surface shows of a text action.
#[derive(Clone, Debug)]
pub struct TextActionSnapshot {
    pub action: QualifiedActionId,
    pub input: String,
    pub output: String,
    pub status: ExecutionStatus,
    pub invocation_id: Option<InvocationId>,
    pub active_invocation: Option<InvocationId>,
    pub generation: u64,
    pub status_text: String,
    pub storage: StorageState,
}

impl TextActionSnapshot {
    /// Whether a run is active and can be stopped.
    pub fn can_stop(&self) -> (r: bool)
        ensures
            r == self.active_invocation is Some,
    {
        self.active_invocation.is_some()
    }
}

/// Why a text action request failed.
#[derive(Clone, Debug)]
pub enum TextActionError {
    Busy,
    NotRunning,
    Failed(String),
}

impl TextActionError {
    /// The error's message, as its `Display` writes it.
    pub fn to_string(&self) -> (r: String)
        ensures
            match self {
                TextActionError::Busy => r@ == "the action is already running"@,
                TextActionError::NotRunning => r@ == "there is no active action"@,
                TextActionError::Failed(m) => r@ == "text action failed: "@ + m@,
            },
    {
        match self {
            TextActionError::Busy => "the action is already running".to_string(),
            TextActionError::NotRunning => "there is no active action".to_string(),
            TextActionError::Failed(m) => concat("text action failed: ", m.as_str()),
        }
    }
}

/// Where a history page starts.
#[derive(Clone, Debug)]
pub struct HistoryCursor {
    pub updated_at_ms: i64,
    pub invocation_id: String,
}

/// A history request: a search text, an optional status, favorites only,
/// where to start and how many items.
#[derive(Clone, Debug)]
pub struct HistoryQuery {
    pub search: String,
    pub status: Option<ExecutionStatus>,
    pub favorites_only: bool,
    pub cursor: Option<HistoryCursor>,
    pub limit: usize,
}

impl Default for HistoryQuery {
    fn default() -> (r: Self)
        ensures
            r.search@.len() == 0,
            r.status is None,
            !r.favorites_only,
            r.cursor is None,
            r.limit == 0,
    {
        let search = String::new();
        assert(search@ =~= Seq::<char>::empty());
        HistoryQuery { search, status: None, favorites_only: false, cursor: None, limit: 0 }
    }
}

/// One past execution as the history lists it.
#[derive(Clone, Debug)]
pub struct HistoryItem {
    pub invocation_id: InvocationId,
    pub title: String,
    pub preview: String,
    pub status: ExecutionStatus,
    pub provider_id: String,
    pub model_id: String,
    pub updated_at_ms: i64,
    pub favorite: bool,
    pub favorite_note: String,
}

/// A page of history and where the next one starts.
#[derive(Clone, Debug)]
pub struct HistoryPage {
    pub items: Vec<HistoryItem>,
    pub next_cursor: Option<HistoryCursor>,
}

/// One past execution in full.
#[derive(Clone, Debug)]
pub struct HistoryDetail {
    pub item: HistoryItem,
    pub input: String,
    pub output: String,
}

/// Whether clearing the history keeps favorites.
#[derive(Clone, Copy, Debug, PartialEq, Eq, Structural)]
pub enum ClearHistoryMode {
    PreserveFavorites,
    IncludeFavorites,
}

/// Where the application keeps its data, and how busy it is. Paths are
/// held as text.
#[derive(Clone, Debug)]
pub struct DiagnosticsSnapshot {
    pub data_directory: String,
    pub log_directory: String,
    pub settings_path: String,
    pub database_path: String,
    pub recording_enabled: bool,
    pub retention_generation: u64,
    pub active_executions: usize,
}

/// Why a history request failed.
#[derive(Clone, Debug)]
pub enum HistoryError {
    Invalid(String),
    NotFound,
    Storage(String),
    Retry(String),
}

impl HistoryError {
    /// The error's message, as its `Display` writes it.
    pub fn to_string(&self) -> (r: String)
        ensures
            match self {
                HistoryError::Invalid(m) => r@ == "history request is invalid: "@ + m@,
                HistoryError::NotFound => r@ == "history item was not found"@,
                HistoryError::Storage(m) => r@ == "history operation failed: "@ + m@,
                HistoryError::Retry(m) => r@ == "history retry failed: "@ + m@,
            },
    {
        match self {
            HistoryError::Invalid(m) => concat("history request is invalid: ", m.as_str()),
            HistoryError::NotFound => "history item was not found".to_string(),
            HistoryError::Storage(m) => concat("history operation failed: ", m.as_str()),
            HistoryError::Retry(m) => concat("history retry failed: ", m.as_str()),
        }
    }
}

/// Why the chat runner refused or failed a request.
#[derive(Clone, Debug)]
pub enum ChatRunError {
    ConversationBusy,
    ShuttingDown,
    Failed(String),
}

impl ChatRunError {
    /// The error's message, as its `Display` writes it.
    pub fn to_string(&self) -> (r: String)
        ensures
            match self {
                ChatRunError::ConversationBusy => r@
                    == "chat is already generating in this conversation"@,
                ChatRunError::ShuttingDown => r@ == "host is shutting down"@,
                ChatRunError::Failed(m) => r@ == "chat request failed: "@ + m@,
            },
    {
        match self {
            ChatRunError::ConversationBusy => "chat is already generating in this conversation".to_string(),
            ChatRunError::ShuttingDown => "host is shutting down".to_string(),
            ChatRunError::Failed(m) => concat("chat request failed: ", m.as_str()),
        }
    }
}

/// Why writing the settings file failed.
#[derive(Clone, Debug)]
pub enum FileWriteError {
    CreateDirectory(String),
    WriteTemporary(String),
    Replace(String),
}

impl FileWriteError {
    /// The error's message, as its `Display` writes it.
    pub fn to_string(&self) -> (r: String)
        ensures
            match self {
                FileWriteError::CreateDirectory(m) => r@
                    == "could not create the settings directory: "@ + m@,
                FileWriteError::WriteTemporary(m) => r@
                    == "could not write the temporary settings file: "@ + m@,
                FileWriteError::Replace(m) => r@
                    == "could not replace the settings file atomically: "@ + m@,
            },
    {
        match self {
            FileWriteError::CreateDirectory(m) => concat(
                "could not create the settings directory: ",
                m.as_str(),
            ),
            FileWriteError::WriteTemporary(m) => concat(
                "could not write the temporary settings file: ",
                m.as_str(),
            ),
            FileWriteError::Replace(m) => concat(
                "could not replace the settings file atomically: ",
                m.as_str(),
            ),
        }
    }
}

/// Why content storage failed.
#[derive(Clone, Debug)]
pub enum StorageError {
    Start(String),
    QueueFull,
    Closed,
    Sql(String),
}

impl StorageError {
    /// The error's message, as its `Display` writes it.
    pub fn to_string(&self) -> (r: String)
        ensures
            match self {
                StorageError::Start(m) => r@ == "could not start content storage: "@ + m@,
                StorageError::QueueFull => r@ == "content storage queue is full"@,
                StorageError::Closed => r@ == "content storage is closed"@,
                StorageError::Sql(m) => r@ == "content storage operation failed: "@ + m@,
            },
    {
        match self {
            StorageError::Start(m) => concat("could not start content storage: ", m.as_str()),
            StorageError::QueueFull => "content storage queue is full".to_string(),
            StorageError::Closed => "content storage is closed".to_string(),
            StorageError::Sql(m) => concat("content storage operation failed: ", m.as_str()),
        }
    }
}

/// Why the platform shell failed.
#[derive(Clone, Debug)]
pub enum PlatformError {
    Unavailable(String),
    Hotkey(String),
    Startup(String),
}

impl PlatformError {
    /// The error's message, as its `Display` writes it.
    pub fn to_string(&self) -> (r: String)
        ensures
            match self {
                PlatformError::Unavailable(m) => r@ == "Windows shell is unavailable: "@ + m@,
                PlatformError::Hotkey(m) => r@ == "global shortcut is unavailable: "@ + m@,
                PlatformError::Startup(m) => r@ == "startup registration failed: "@ + m@,
            },
    {
        match self {
            PlatformError::Unavailable(m) => concat("Windows shell is unavailable: ", m.as_str()),
            PlatformError::Hotkey(m) => concat("global shortcut is unavailable: ", m.as_str()),
            PlatformError::Startup(m) => concat("startup registration failed: ", m.as_str()),
        }
    }
}

} // verus!
