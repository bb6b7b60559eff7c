//! The record types of the registry: workflows, executions, their composite
//! keys, the per-operation contexts, and the error kinds.
//!
//! Identities and all string-like fields are raw bounded byte sequences: the
//! serialized payloads (`workflow_json`, `result_json`) are opaque to this
//! library and are never parsed, and the size limits of the persisted layout
//! are byte limits.

use vstd::prelude::*;

verus! {

/// Maximum byte length of a caller-chosen workflow or execution id.
pub const MAX_ID_LEN: usize = 64;

/// Maximum byte length of a workflow's display name.
pub const MAX_NAME_LEN: usize = 128;

/// Maximum byte length of a workflow's serialized definition.
pub const MAX_WORKFLOW_JSON_LEN: usize = 10000;

/// Maximum byte length of an execution's serialized result.
pub const MAX_RESULT_JSON_LEN: usize = 5000;

/// Every kind of failure an operation can report. Each operation's contract
/// states exactly which inputs produce which kind.
#[derive(Clone, Copy, PartialEq, Eq, Structural, Debug)]
pub enum ForgeFlowError {
    /// A workflow name exceeded `MAX_NAME_LEN` bytes.
    NameTooLong,
    /// A serialized payload exceeded its size limit.
    WorkflowTooLarge,
    /// A lifecycle operation was signed by an identity other than the
    /// workflow's owner.
    Unauthorized,
    /// Declared for completeness: no operation checks `is_active`, so no
    /// operation ever returns this kind. Execution recording is permitted
    /// against inactive workflows.
    WorkflowInactive,
    /// The addressed record does not exist.
    NotFound,
    /// The addressed location is already occupied (or was occupied once and
    /// has since been reclaimed; reclaimed locations are not reusable).
    AlreadyExists,
}

/// The composite key that addresses a workflow record: the same
/// `(owner, workflow_id)` pair always addresses the same location, so
/// existence at the key replaces an explicit uniqueness index.
pub struct WorkflowKey {
    pub owner: Vec<u8>,
    pub workflow_id: Vec<u8>,
}

/// Mathematical value of a `WorkflowKey`.
#[verifier::ext_equal]
pub struct KeyView {
    pub owner: Seq<u8>,
    pub workflow_id: Seq<u8>,
}

impl View for WorkflowKey {
    type V = KeyView;

    open spec fn view(&self) -> KeyView {
        KeyView { owner: self.owner@, workflow_id: self.workflow_id@ }
    }
}

/// A user-owned workflow definition record.
pub struct Workflow {
    /// Identity empowered to update, toggle and delete this record.
    /// Immutable after creation.
    pub owner: Vec<u8>,
    /// Caller-chosen key, at most `MAX_ID_LEN` bytes, unique per owner.
    pub workflow_id: Vec<u8>,
    /// Display name, at most `MAX_NAME_LEN` bytes.
    pub name: Vec<u8>,
    /// Opaque serialized definition, at most `MAX_WORKFLOW_JSON_LEN` bytes.
    pub workflow_json: Vec<u8>,
    /// Seconds since epoch at creation.
    pub created_at: i64,
    /// Seconds since epoch at the last successful update; `toggle` does not
    /// bump it.
    pub updated_at: i64,
    /// Number of execution records ever created against this workflow.
    pub execution_count: u64,
    /// Advisory activity flag; flipped by `toggle`, enforced by nothing.
    pub is_active: bool,
}

/// Mathematical value of a `Workflow`.
#[verifier::ext_equal]
pub struct WorkflowView {
    pub owner: Seq<u8>,
    pub workflow_id: Seq<u8>,
    pub name: Seq<u8>,
    pub workflow_json: Seq<u8>,
    pub created_at: i64,
    pub updated_at: i64,
    pub execution_count: u64,
    pub is_active: bool,
}

impl View for Workflow {
    type V = WorkflowView;

    open spec fn view(&self) -> WorkflowView {
        WorkflowView {
            owner: self.owner@,
            workflow_id: self.workflow_id@,
            name: self.name@,
            workflow_json: self.workflow_json@,
            created_at: self.created_at,
            updated_at: self.updated_at,
            execution_count: self.execution_count,
            is_active: self.is_active,
        }
    }
}

/// An immutable record of one invocation attempt against a workflow. Once
/// created it is never updated or deleted.
pub struct Execution {
    /// Back-reference to the parent workflow's key (lookup only, not
    /// ownership). Dangles harmlessly if the workflow is later deleted.
    pub workflow: WorkflowKey,
    /// Identity that recorded this execution; need not be the workflow owner.
    pub executor: Vec<u8>,
    /// Caller-chosen key, at most `MAX_ID_LEN` bytes, unique per workflow.
    pub execution_id: Vec<u8>,
    /// Opaque serialized result, at most `MAX_RESULT_JSON_LEN` bytes.
    pub result_json: Vec<u8>,
    /// Outcome flag as reported by the executor.
    pub success: bool,
    /// Seconds since epoch at recording.
    pub executed_at: i64,
}

/// Mathematical value of an `Execution`.
#[verifier::ext_equal]
pub struct ExecutionView {
    pub workflow: KeyView,
    pub executor: Seq<u8>,
    pub execution_id: Seq<u8>,
    pub result_json: Seq<u8>,
    pub success: bool,
    pub executed_at: i64,
}

impl View for Execution {
    type V = ExecutionView;

    open spec fn view(&self) -> ExecutionView {
        ExecutionView {
            workflow: self.workflow@,
            executor: self.executor@,
            execution_id: self.execution_id@,
            result_json: self.result_json@,
            success: self.success,
            executed_at: self.executed_at,
        }
    }
}

/// Context of a `create_workflow` call: the signer, who becomes the owner of
/// the new record and pays for its storage.
pub struct CreateWorkflow {
    pub owner: Vec<u8>,
}

/// Context of an `update_workflow` or `toggle_workflow` call: the addressed
/// workflow and the signer, who must be its owner.
pub struct UpdateWorkflow {
    pub workflow: WorkflowKey,
    pub owner: Vec<u8>,
}

/// Context of an `execute_workflow` call: the addressed workflow and the
/// signer recording the execution, who may be any identity.
pub struct ExecuteWorkflow {
    pub workflow: WorkflowKey,
    pub executor: Vec<u8>,
}

/// Context of a `delete_workflow` call: the addressed workflow and the
/// signer, who must be its owner and receives the reclaimed storage.
pub struct DeleteWorkflow {
    pub workflow: WorkflowKey,
    pub owner: Vec<u8>,
}

} // verus!
