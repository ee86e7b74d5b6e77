//! The lifecycle of an action execution and what is stored about it.
use vstd::prelude::*;

use crate::ids::{ConversationId, InvocationId, MessageId};
use crate::plugin::PluginId;
use crate::provider::ProviderId;

verus! {

/// Where an execution stands.
#[derive(Clone, Copy, Debug, PartialEq, Eq, Structural)]
pub enum ExecutionStatus {
    Queued,
    Running,
    Cancelling,
    Completed,
    Failed,
    Cancelled,
    Interrupted,
}

/// The statuses an execution never leaves.
pub open spec fn terminal(s: ExecutionStatus) -> bool {
    s == ExecutionStatus::Completed || s == ExecutionStatus::Failed || s
        == ExecutionStatus::Cancelled || s == ExecutionStatus::Interrupted
}

impl ExecutionStatus {
    /// Whether the execution has finished.
    pub fn is_terminal(self) -> (r: bool)
        ensures
            r == terminal(self),
    {
        match self {
            ExecutionStatus::Completed | ExecutionStatus::Failed | ExecutionStatus::Cancelled
            | ExecutionStatus::Interrupted => true,
            _ => false,
        }
    }
}

/// The name under which storage records `s`.
pub open spec fn status_text(s: ExecutionStatus) -> Seq<char> {
    match s {
        ExecutionStatus::Queued => "queued"@,
        ExecutionStatus::Running => "running"@,
        ExecutionStatus::Cancelling => "cancelling"@,
        ExecutionStatus::Completed => "completed"@,
        ExecutionStatus::Failed => "failed"@,
        ExecutionStatus::Cancelled => "cancelled"@,
        ExecutionStatus::Interrupted => "interrupted"@,
    }
}

/// The status a stored name stands for; unknown names read as interrupted.
pub open spec fn status_from_text(t: Seq<char>) -> ExecutionStatus {
    if t == "queued"@ {
        ExecutionStatus::Queued
    } else if t == "running"@ {
        ExecutionStatus::Running
    } else if t == "cancelling"@ {
        ExecutionStatus::Cancelling
    } else if t == "completed"@ {
        ExecutionStatus::Completed
    } else if t == "failed"@ {
        ExecutionStatus::Failed
    } else if t == "cancelled"@ {
        ExecutionStatus::Cancelled
    } else {
        ExecutionStatus::Interrupted
    }
}

/// The name under which storage records `status`.
pub fn status_name(status: ExecutionStatus) -> (r: &'static str)
    ensures
        r@ == status_text(status),
{
    match status {
        ExecutionStatus::Queued => "queued",
        ExecutionStatus::Running => "running",
        ExecutionStatus::Cancelling => "cancelling",
        ExecutionStatus::Completed => "completed",
        ExecutionStatus::Failed => "failed",
        ExecutionStatus::Cancelled => "cancelled",
        ExecutionStatus::Interrupted => "interrupted",
    }
}

/// The status a stored name stands for; unknown names read as interrupted.
pub fn parse_status(status: &str) -> (r: ExecutionStatus)
    ensures
        r == status_from_text(status@),
{
    let s = crate::text::str_eq;
    if s(status, "queued") {
        ExecutionStatus::Queued
    } else if s(status, "running") {
        ExecutionStatus::Running
    } else if s(status, "cancelling") {
        ExecutionStatus::Cancelling
    } else if s(status, "completed") {
        ExecutionStatus::Completed
    } else if s(status, "failed") {
        ExecutionStatus::Failed
    } else if s(status, "cancelled") {
        ExecutionStatus::Cancelled
    } else {
        ExecutionStatus::Interrupted
    }
}

/// A status written by storage reads back as the same status.
pub proof fn status_names_round_trip(status: ExecutionStatus)
    ensures
        status_from_text(status_text(status)) == status,
{
    reveal_strlit("queued");
    reveal_strlit("running");
    reveal_strlit("cancelling");
    reveal_strlit("completed");
    reveal_strlit("failed");
    reveal_strlit("cancelled");
    reveal_strlit("interrupted");
    assert("running"@[0] != "queued"@[0]);
    assert("cancelling"@[0] != "queued"@[0]);
    assert("cancelling"@[0] != "running"@[0]);
    assert("completed"@[0] != "queued"@[0]);
    assert("completed"@[0] != "running"@[0]);
    assert("completed"@[1] != "cancelling"@[1]);
    assert("failed"@[0] != "queued"@[0]);
    assert("failed"@[0] != "running"@[0]);
    assert("failed"@[0] != "cancelling"@[0]);
    assert("failed"@[0] != "completed"@[0]);
    assert("cancelled"@[0] != "queued"@[0]);
    assert("cancelled"@[0] != "running"@[0]);
    assert("cancelled"@.len() != "cancelling"@.len());
    assert("cancelled"@[1] != "completed"@[1]);
    assert("cancelled"@[0] != "failed"@[0]);
    assert("interrupted"@[0] != "queued"@[0]);
    assert("interrupted"@[0] != "running"@[0]);
    assert("interrupted"@[0] != "cancelling"@[0]);
    assert("interrupted"@[0] != "completed"@[0]);
    assert("interrupted"@[0] != "failed"@[0]);
    assert("interrupted"@[0] != "cancelled"@[0]);
}

/// Whether an execution's output is stored: being written, written, failed
/// to be written, or not recorded at all.
#[derive(Clone, Copy, Debug, PartialEq, Eq, Structural)]
pub enum StorageState {
    Pending,
    Saved,
    Unsaved,
    NotRecorded,
}

/// The model of an execution snapshot.
pub struct SnapshotView {
    pub invocation_id: Seq<char>,
    pub plugin_id: Seq<char>,
    pub plugin_generation: u64,
    pub conversation_id: Seq<char>,
    pub user_message_id: Seq<char>,
    pub assistant_message_id: Seq<char>,
    pub provider_id: Seq<char>,
    pub model_id: Seq<char>,
    pub sequence: u64,
    pub text_version: u64,
    pub status: ExecutionStatus,
    pub output: Seq<char>,
    pub error: Option<Seq<char>>,
    pub storage: StorageState,
    pub retention_generation: u64,
}

/// The state of an execution at one point of its run.
#[derive(Debug)]
pub struct ExecutionSnapshot {
    pub invocation_id: InvocationId,
    pub plugin_id: PluginId,
    pub plugin_generation: u64,
    pub conversation_id: ConversationId,
    pub user_message_id: MessageId,
    pub assistant_message_id: MessageId,
    pub provider_id: ProviderId,
    pub model_id: String,
    pub sequence: u64,
    pub text_version: u64,
    pub status: ExecutionStatus,
    pub output: String,
    pub error: Option<String>,
    pub storage: StorageState,
    pub retention_generation: u64,
}

impl View for ExecutionSnapshot {
    type V = SnapshotView;

    open spec fn view(&self) -> SnapshotView {
        SnapshotView {
            invocation_id: self.invocation_id@,
            plugin_id: self.plugin_id@,
            plugin_generation: self.plugin_generation,
            conversation_id: self.conversation_id@,
            user_message_id: self.user_message_id@,
            assistant_message_id: self.assistant_message_id@,
            provider_id: self.provider_id@,
            model_id: self.model_id@,
            sequence: self.sequence,
            text_version: self.text_version,
            status: self.status,
            output: self.output@,
            error: crate::provider::opt_view(self.error),
            storage: self.storage,
            retention_generation: self.retention_generation,
        }
    }
}

impl Clone for ExecutionSnapshot {
    fn clone(&self) -> (r: Self)
        ensures
            r@ == self@,
    {
        ExecutionSnapshot {
            invocation_id: self.invocation_id.clone(),
            plugin_id: self.plugin_id.clone(),
            plugin_generation: self.plugin_generation,
            conversation_id: self.conversation_id.clone(),
            user_message_id: self.user_message_id.clone(),
            assistant_message_id: self.assistant_message_id.clone(),
            provider_id: self.provider_id.clone(),
            model_id: crate::text::copy_string(&self.model_id),
            sequence: self.sequence,
            text_version: self.text_version,
            status: self.status,
            output: crate::text::copy_string(&self.output),
            error: crate::provider::copy_opt(&self.error),
            storage: self.storage,
            retention_generation: self.retention_generation,
        }
    }
}

/// Who is told of each execution snapshot.
pub trait ExecutionObserver {
    fn on_execution(&self, snapshot: ExecutionSnapshot);
}

/// What storage records of an execution.
#[derive(Debug)]
pub struct ExecutionCheckpoint {
    pub snapshot: ExecutionSnapshot,
    pub input: String,
    pub conversation_title: String,
    pub user_ordinal: u64,
    pub assistant_ordinal: u64,
}

} // verus!
