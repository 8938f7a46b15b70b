//! Execution history records.

use vstd::prelude::*;
use crate::clock::Timestamp;
use crate::ids::Uuid;

verus! {

#[derive(Clone, Copy, Debug, PartialEq, Eq, Structural)]
pub enum TriggerKind {
    Manual,
}

#[derive(Clone, Copy, Debug, PartialEq, Eq, Structural)]
pub enum ExecutionStatus {
    Planned,
    Running,
    Succeeded,
    Failed,
    Partial,
    Aborted,
}

#[derive(Clone, Debug, PartialEq, Eq)]
pub struct Execution {
    pub id: Uuid,
    pub ritual_id: Uuid,
    pub ritual_version_id: Uuid,
    pub status: ExecutionStatus,
    pub trigger_kind: TriggerKind,
    pub started_at: Timestamp,
    pub finished_at: Option<Timestamp>,
    pub failure_code: Option<String>,
    pub created_at: Timestamp,
}

#[derive(Clone, Copy, Debug, PartialEq, Eq, Structural)]
pub enum ExecutionStepStatus {
    Pending,
    Running,
    Succeeded,
    Skipped,
    Failed,
    Aborted,
}

#[derive(Clone, Debug, PartialEq, Eq)]
pub struct ExecutionStep {
    pub id: Uuid,
    pub execution_id: Uuid,
    pub step_index: u32,
    pub action_type: String,
    pub status: ExecutionStepStatus,
    pub adapter_id: Option<String>,
    pub adapter_instance_id: Option<Uuid>,
    pub started_at: Timestamp,
    pub finished_at: Option<Timestamp>,
    pub result_code: Option<String>,
    pub redacted_message: Option<String>,
}

impl ExecutionStatus {
    /// An execution that will not change any more.
    pub open spec fn terminal(self) -> bool {
        match self {
            ExecutionStatus::Planned | ExecutionStatus::Running => false,
            _ => true,
        }
    }
}

impl ExecutionStepStatus {
    /// A step that will not change any more.
    pub open spec fn terminal(self) -> bool {
        match self {
            ExecutionStepStatus::Pending | ExecutionStepStatus::Running => false,
            _ => true,
        }
    }
}

} // verus!
