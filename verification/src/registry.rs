//! The executable registry and its five operations.
//!
//! Every operation is specified by the corresponding transition function of
//! [`crate::model`]: its contract says the registry's new abstract state and
//! the returned result are exactly what the transition yields, and that the
//! registry invariant is preserved. An operation that fails leaves the
//! registry unchanged, so each call is atomic.

use crate::model::{
    clock_ok, create_wf, delete_wf, exec_at, exec_exists, execute_wf, inv, key_in, key_live,
    key_retired, lemma_count_le_len, lemma_create_preserves_inv, lemma_delete_preserves_inv,
    lemma_exec_idx_unique, lemma_execute_preserves_inv, lemma_live_idx_unique,
    lemma_toggle_preserves_inv, lemma_update_preserves_inv, toggle_wf, update_wf, wf_at, wf_key,
    RegistryView,
};
use crate::records::{
    CreateWorkflow, DeleteWorkflow, ExecuteWorkflow, Execution, ExecutionView, ForgeFlowError,
    KeyView, UpdateWorkflow, Workflow, WorkflowKey, WorkflowView, MAX_ID_LEN, MAX_NAME_LEN,
    MAX_RESULT_JSON_LEN, MAX_WORKFLOW_JSON_LEN,
};
use vstd::prelude::*;

verus! {

/// The registry: live workflow records, the keys of deleted ones, and every
/// execution record ever created.
pub struct Registry {
    workflows: Vec<Workflow>,
    retired: Vec<WorkflowKey>,
    executions: Vec<Execution>,
}

impl View for Registry {
    type V = RegistryView;

    closed spec fn view(&self) -> RegistryView {
        RegistryView {
            workflows: self.workflows@.map_values(|w: Workflow| w@),
            retired: self.retired@.map_values(|k: WorkflowKey| k@),
            executions: self.executions@.map_values(|e: Execution| e@),
        }
    }
}

/// Byte-wise equality of two byte vectors, reflected as equality of their
/// abstract sequences.
fn bytes_eq(a: &Vec<u8>, b: &Vec<u8>) -> (r: bool)
    ensures
        r == (a@ == b@),
{
    if a.len() != b.len() {
        return false;
    }
    let mut i: usize = 0;
    while i < a.len()
        invariant
            i <= a@.len(),
            a@.len() == b@.len(),
            forall|j: int| 0 <= j < i ==> a@[j] == b@[j],
        decreases a@.len() - i,
    {
        if a[i] != b[i] {
            return false;
        }
        i += 1;
    }
    proof {
        assert(a@ =~= b@);
    }
    true
}

/// Whether the stored record `w` is addressed by the key `(owner, workflow_id)`.
fn record_matches(w: &Workflow, owner: &Vec<u8>, workflow_id: &Vec<u8>) -> (r: bool)
    ensures
        r == (wf_key(w@) == KeyView { owner: owner@, workflow_id: workflow_id@ }),
{
    let r = bytes_eq(&w.owner, owner) && bytes_eq(&w.workflow_id, workflow_id);
    r
}

impl Registry {
    /// An empty registry: no live records, no retired keys, no executions.
    pub fn new() -> (r: Registry)
        ensures
            inv(r@),
            r@.workflows.len() == 0,
            r@.retired.len() == 0,
            r@.executions.len() == 0,
    {
        let r = Registry { workflows: Vec::new(), retired: Vec::new(), executions: Vec::new() };
        proof {
            assert(r@.workflows.len() == 0);
            assert(r@.retired.len() == 0);
            assert(r@.executions.len() == 0);
        }
        r
    }

    /// Index of the live record at key `(owner, workflow_id)`, if any.
    fn find_workflow(&self, owner: &Vec<u8>, workflow_id: &Vec<u8>) -> (r: Option<usize>)
        ensures
            ({
                let k = KeyView { owner: owner@, workflow_id: workflow_id@ };
                match r {
                    Some(i) => i < self@.workflows.len() && wf_key(self@.workflows[i as int])
                        == k,
                    None => !key_in(self@.workflows, k),
                }
            }),
    {
        let ghost k = KeyView { owner: owner@, workflow_id: workflow_id@ };
        let mut i: usize = 0;
        while i < self.workflows.len()
            invariant
                i <= self@.workflows.len(),
                self@.workflows.len() == self.workflows@.len(),
                k == (KeyView { owner: owner@, workflow_id: workflow_id@ }),
                forall|j: int| 0 <= j < i ==> wf_key(#[trigger] self@.workflows[j]) != k,
            decreases self@.workflows.len() - i,
        {
            let hit = record_matches(&self.workflows[i], owner, workflow_id);
            proof {
                assert(self@.workflows[i as int] == self.workflows@[i as int]@);
            }
            if hit {
                return Some(i);
            }
            i += 1;
        }
        None
    }

    /// Whether the key `(owner, workflow_id)` belongs to a deleted workflow.
    fn is_retired(&self, owner: &Vec<u8>, workflow_id: &Vec<u8>) -> (r: bool)
        ensures
            r == key_retired(self@, KeyView { owner: owner@, workflow_id: workflow_id@ }),
    {
        let ghost k = KeyView { owner: owner@, workflow_id: workflow_id@ };
        let mut i: usize = 0;
        while i < self.retired.len()
            invariant
                i <= self@.retired.len(),
                self@.retired.len() == self.retired@.len(),
                k == (KeyView { owner: owner@, workflow_id: workflow_id@ }),
                forall|j: int| 0 <= j < i ==> #[trigger] self@.retired[j] != k,
            decreases self@.retired.len() - i,
        {
            let hit = bytes_eq(&self.retired[i].owner, owner) && bytes_eq(
                &self.retired[i].workflow_id,
                workflow_id,
            );
            proof {
                assert(self@.retired[i as int] == self.retired@[i as int]@);
            }
            if hit {
                proof {
                    assert(self@.retired[i as int] == k);
                }
                return true;
            }
            i += 1;
        }
        proof {
            if self@.retired.contains(k) {
                let m = choose|m: int| 0 <= m < self@.retired.len() && self@.retired[m] == k;
            }
        }
        false
    }

    /// Register a new workflow owned by the signer of `ctx`.
    ///
    /// Fails with `AlreadyExists` if the location at
    /// `(ctx.owner, workflow_id)` is or ever was occupied, with `NameTooLong`
    /// if `name` exceeds `MAX_NAME_LEN` bytes, and with `WorkflowTooLarge` if
    /// `workflow_json` exceeds `MAX_WORKFLOW_JSON_LEN` bytes. On success the
    /// new record starts with `created_at == updated_at == now`, a zero
    /// execution count and the active flag set; on failure the registry is
    /// unchanged.
    pub fn create_workflow(
        &mut self,
        ctx: CreateWorkflow,
        workflow_id: Vec<u8>,
        name: Vec<u8>,
        workflow_json: Vec<u8>,
        now: i64,
    ) -> (r: Result<(), ForgeFlowError>)
        requires
            inv(old(self)@),
            workflow_id@.len() <= MAX_ID_LEN,
        ensures
            inv(final(self)@),
            final(self)@ == create_wf(
                old(self)@,
                ctx.owner@,
                workflow_id@,
                name@,
                workflow_json@,
                now,
            ).0,
            r == create_wf(old(self)@, ctx.owner@, workflow_id@, name@, workflow_json@, now).1,
    {
        let ghost s0 = self@;
        let ghost k = KeyView { owner: ctx.owner@, workflow_id: workflow_id@ };
        let found = self.find_workflow(&ctx.owner, &workflow_id);
        proof {
            if found is Some {
                assert(key_in(s0.workflows, k));
            }
        }
        if found.is_some() || self.is_retired(&ctx.owner, &workflow_id) {
            return Err(ForgeFlowError::AlreadyExists);
        }
        if name.len() > MAX_NAME_LEN {
            return Err(ForgeFlowError::NameTooLong);
        }
        if workflow_json.len() > MAX_WORKFLOW_JSON_LEN {
            return Err(ForgeFlowError::WorkflowTooLarge);
        }
        let w = Workflow {
            owner: ctx.owner,
            workflow_id,
            name,
            workflow_json,
            created_at: now,
            updated_at: now,
            execution_count: 0,
            is_active: true,
        };
        proof {
            lemma_create_preserves_inv(s0, k.owner, k.workflow_id, name@, workflow_json@, now);
        }
        self.workflows.push(w);
        proof {
            assert(self@.workflows =~= s0.workflows.push(w@));
            assert(self@ =~= create_wf(s0, k.owner, k.workflow_id, name@, workflow_json@, now).0);
        }
        Ok(())
    }

    /// Flip the `is_active` flag of the addressed workflow.
    ///
    /// Fails with `NotFound` if no live record is at the addressed location
    /// and with `Unauthorized` unless the signer is the recorded owner. On
    /// success only `is_active` changes: in particular `updated_at` keeps its
    /// old value, unlike after `update_workflow`. On failure the registry is
    /// unchanged.
    pub fn toggle_workflow(&mut self, ctx: UpdateWorkflow) -> (r: Result<(), ForgeFlowError>)
        requires
            inv(old(self)@),
        ensures
            inv(final(self)@),
            final(self)@ == toggle_wf(old(self)@, ctx.workflow@, ctx.owner@).0,
            r == toggle_wf(old(self)@, ctx.workflow@, ctx.owner@).1,
    {
        let ghost s0 = self@;
        let found = self.find_workflow(&ctx.workflow.owner, &ctx.workflow.workflow_id);
        let i = match found {
            None => {
                return Err(ForgeFlowError::NotFound);
            },
            Some(i) => i,
        };
        proof {
            lemma_live_idx_unique(s0, ctx.workflow@, i as int);
        }
        let authorized = bytes_eq(&self.workflows[i].owner, &ctx.owner);
        proof {
            assert(self@.workflows[i as int] == self.workflows@[i as int]@);
        }
        if !authorized {
            return Err(ForgeFlowError::Unauthorized);
        }
        let mut w = self.workflows.remove(i);
        w.is_active = !w.is_active;
        self.workflows.insert(i, w);
        proof {
            let w2 = WorkflowView { is_active: !s0.workflows[i as int].is_active, ..s0.workflows[i as int] };
            assert forall|j: int|
                0 <= j < self@.workflows.len() implies self@.workflows[j]
                == s0.workflows.update(i as int, w2)[j] by {
                assert(self@.workflows[j] == self.workflows@[j]@);
            }
            assert(self@.workflows =~= s0.workflows.update(i as int, w2));
            assert(self@ =~= toggle_wf(s0, ctx.workflow@, ctx.owner@).0);
            lemma_toggle_preserves_inv(s0, ctx.workflow@, ctx.owner@);
        }
        Ok(())
    }

    /// Replace the addressed workflow's `name` and `workflow_json` and bump
    /// `updated_at` to `now`.
    ///
    /// Fails with `NotFound` if no live record is at the addressed location,
    /// with `Unauthorized` unless the signer is the recorded owner, with
    /// `NameTooLong` if `name` exceeds `MAX_NAME_LEN` bytes, and with
    /// `WorkflowTooLarge` if `workflow_json` exceeds `MAX_WORKFLOW_JSON_LEN`
    /// bytes. `execution_count` and `is_active` are never touched; on
    /// failure the registry is unchanged.
    pub fn update_workflow(
        &mut self,
        ctx: UpdateWorkflow,
        name: Vec<u8>,
        workflow_json: Vec<u8>,
        now: i64,
    ) -> (r: Result<(), ForgeFlowError>)
        requires
            inv(old(self)@),
            clock_ok(old(self)@, now),
        ensures
            inv(final(self)@),
            final(self)@ == update_wf(
                old(self)@,
                ctx.workflow@,
                ctx.owner@,
                name@,
                workflow_json@,
                now,
            ).0,
            r == update_wf(old(self)@, ctx.workflow@, ctx.owner@, name@, workflow_json@, now).1,
    {
        let ghost s0 = self@;
        let found = self.find_workflow(&ctx.workflow.owner, &ctx.workflow.workflow_id);
        let i = match found {
            None => {
                return Err(ForgeFlowError::NotFound);
            },
            Some(i) => i,
        };
        proof {
            lemma_live_idx_unique(s0, ctx.workflow@, i as int);
        }
        let authorized = bytes_eq(&self.workflows[i].owner, &ctx.owner);
        proof {
            assert(self@.workflows[i as int] == self.workflows@[i as int]@);
        }
        if !authorized {
            return Err(ForgeFlowError::Unauthorized);
        }
        if name.len() > MAX_NAME_LEN {
            return Err(ForgeFlowError::NameTooLong);
        }
        if workflow_json.len() > MAX_WORKFLOW_JSON_LEN {
            return Err(ForgeFlowError::WorkflowTooLarge);
        }
        let mut w = self.workflows.remove(i);
        w.name = name;
        w.workflow_json = workflow_json;
        w.updated_at = now;
        self.workflows.insert(i, w);
        proof {
            let w2 = WorkflowView {
                name: name@,
                workflow_json: workflow_json@,
                updated_at: now,
                ..s0.workflows[i as int]
            };
            assert forall|j: int|
                0 <= j < self@.workflows.len() implies self@.workflows[j]
                == s0.workflows.update(i as int, w2)[j] by {
                assert(self@.workflows[j] == self.workflows@[j]@);
            }
            assert(self@.workflows =~= s0.workflows.update(i as int, w2));
            assert(self@ =~= update_wf(s0, ctx.workflow@, ctx.owner@, name@, workflow_json@, now).0);
            lemma_update_preserves_inv(s0, ctx.workflow@, ctx.owner@, name@, workflow_json@, now);
        }
        Ok(())
    }

    /// Remove the addressed workflow and retire its key; the reclaimed
    /// storage goes back to the owner, and the location is never reusable.
    ///
    /// Fails with `NotFound` if no live record is at the addressed location
    /// and with `Unauthorized` unless the signer is the recorded owner, in
    /// which case the record persists. Execution records referencing the
    /// deleted workflow remain, as orphaned history.
    pub fn delete_workflow(&mut self, ctx: DeleteWorkflow) -> (r: Result<(), ForgeFlowError>)
        requires
            inv(old(self)@),
        ensures
            inv(final(self)@),
            final(self)@ == delete_wf(old(self)@, ctx.workflow@, ctx.owner@).0,
            r == delete_wf(old(self)@, ctx.workflow@, ctx.owner@).1,
    {
        let ghost s0 = self@;
        let found = self.find_workflow(&ctx.workflow.owner, &ctx.workflow.workflow_id);
        let i = match found {
            None => {
                return Err(ForgeFlowError::NotFound);
            },
            Some(i) => i,
        };
        proof {
            lemma_live_idx_unique(s0, ctx.workflow@, i as int);
        }
        let authorized = bytes_eq(&self.workflows[i].owner, &ctx.owner);
        proof {
            assert(self@.workflows[i as int] == self.workflows@[i as int]@);
        }
        if !authorized {
            return Err(ForgeFlowError::Unauthorized);
        }
        let _reclaimed = self.workflows.remove(i);
        self.retired.push(ctx.workflow);
        proof {
            assert forall|j: int|
                0 <= j < self@.workflows.len() implies self@.workflows[j]
                == s0.workflows.remove(i as int)[j] by {
                assert(self@.workflows[j] == self.workflows@[j]@);
            }
            assert(self@.workflows =~= s0.workflows.remove(i as int));
            assert(self@.retired =~= s0.retired.push(ctx.workflow@));
            assert(self@ =~= delete_wf(s0, ctx.workflow@, ctx.owner@).0);
            lemma_delete_preserves_inv(s0, ctx.workflow@, ctx.owner@);
        }
        Ok(())
    }

    /// Record an execution against the addressed workflow and raise its
    /// `execution_count` by exactly one, atomically.
    ///
    /// Any signer may record an execution — there is deliberately no
    /// ownership gate here, and `is_active` is not consulted. Fails with
    /// `NotFound` if no live workflow is at the addressed location, with
    /// `AlreadyExists` if `execution_id` was already used against it, and
    /// with `WorkflowTooLarge` if `result_json` exceeds
    /// `MAX_RESULT_JSON_LEN` bytes. On failure the registry is unchanged.
    pub fn execute_workflow(
        &mut self,
        ctx: ExecuteWorkflow,
        execution_id: Vec<u8>,
        result_json: Vec<u8>,
        success: bool,
        now: i64,
    ) -> (r: Result<(), ForgeFlowError>)
        requires
            inv(old(self)@),
            execution_id@.len() <= MAX_ID_LEN,
            old(self)@.executions.len() < u64::MAX,
        ensures
            inv(final(self)@),
            final(self)@ == execute_wf(
                old(self)@,
                ctx.workflow@,
                ctx.executor@,
                execution_id@,
                result_json@,
                success,
                now,
            ).0,
            r == execute_wf(
                old(self)@,
                ctx.workflow@,
                ctx.executor@,
                execution_id@,
                result_json@,
                success,
                now,
            ).1,
    {
        let ghost s0 = self@;
        let found = self.find_workflow(&ctx.workflow.owner, &ctx.workflow.workflow_id);
        let i = match found {
            None => {
                return Err(ForgeFlowError::NotFound);
            },
            Some(i) => i,
        };
        proof {
            lemma_live_idx_unique(s0, ctx.workflow@, i as int);
        }
        let dup = self.find_execution(
            &ctx.workflow.owner,
            &ctx.workflow.workflow_id,
            &execution_id,
        );
        if dup.is_some() {
            proof {
                assert(exec_exists(s0.executions, ctx.workflow@, execution_id@));
            }
            return Err(ForgeFlowError::AlreadyExists);
        }
        if result_json.len() > MAX_RESULT_JSON_LEN {
            return Err(ForgeFlowError::WorkflowTooLarge);
        }
        let mut w = self.workflows.remove(i);
        proof {
            assert(w@ == s0.workflows[i as int]);
            lemma_count_le_len(s0.executions, wf_key(s0.workflows[i as int]));
            assert(w@.execution_count < u64::MAX);
        }
        w.execution_count = w.execution_count + 1;
        self.workflows.insert(i, w);
        let e = Execution {
            workflow: ctx.workflow,
            executor: ctx.executor,
            execution_id,
            result_json,
            success,
            executed_at: now,
        };
        self.executions.push(e);
        proof {
            let w2 = WorkflowView {
                execution_count: (s0.workflows[i as int].execution_count + 1) as u64,
                ..s0.workflows[i as int]
            };
            assert forall|j: int|
                0 <= j < self@.workflows.len() implies self@.workflows[j]
                == s0.workflows.update(i as int, w2)[j] by {
                assert(self@.workflows[j] == self.workflows@[j]@);
            }
            assert(self@.workflows =~= s0.workflows.update(i as int, w2));
            assert(self@.executions =~= s0.executions.push(e@));
            assert(self@ =~= execute_wf(
                s0,
                ctx.workflow@,
                ctx.executor@,
                execution_id@,
                result_json@,
                success,
                now,
            ).0);
            lemma_execute_preserves_inv(
                s0,
                ctx.workflow@,
                ctx.executor@,
                execution_id@,
                result_json@,
                success,
                now,
            );
        }
        Ok(())
    }

    /// Index of the execution record at key
    /// `((owner, workflow_id), execution_id)`, if any.
    fn find_execution(
        &self,
        owner: &Vec<u8>,
        workflow_id: &Vec<u8>,
        execution_id: &Vec<u8>,
    ) -> (r: Option<usize>)
        ensures
            ({
                let k = KeyView { owner: owner@, workflow_id: workflow_id@ };
                match r {
                    Some(i) => i < self@.executions.len() && self@.executions[i as int].workflow
                        == k && self@.executions[i as int].execution_id == execution_id@,
                    None => !exec_exists(self@.executions, k, execution_id@),
                }
            }),
    {
        let ghost k = KeyView { owner: owner@, workflow_id: workflow_id@ };
        let mut i: usize = 0;
        while i < self.executions.len()
            invariant
                i <= self@.executions.len(),
                self@.executions.len() == self.executions@.len(),
                k == (KeyView { owner: owner@, workflow_id: workflow_id@ }),
                forall|j: int|
                    0 <= j < i ==> !((#[trigger] self@.executions[j]).workflow == k
                        && self@.executions[j].execution_id == execution_id@),
            decreases self@.executions.len() - i,
        {
            let hit = bytes_eq(&self.executions[i].workflow.owner, owner) && bytes_eq(
                &self.executions[i].workflow.workflow_id,
                workflow_id,
            ) && bytes_eq(&self.executions[i].execution_id, execution_id);
            proof {
                assert(self@.executions[i as int] == self.executions@[i as int]@);
            }
            if hit {
                return Some(i);
            }
            i += 1;
        }
        None
    }

    /// The live workflow record at key `(owner, workflow_id)`, if any.
    pub fn get_workflow(&self, owner: &Vec<u8>, workflow_id: &Vec<u8>) -> (r: Option<&Workflow>)
        requires
            inv(self@),
        ensures
            ({
                let k = KeyView { owner: owner@, workflow_id: workflow_id@ };
                match r {
                    Some(w) => key_live(self@, k) && w@ == wf_at(self@, k),
                    None => !key_live(self@, k),
                }
            }),
    {
        match self.find_workflow(owner, workflow_id) {
            Some(i) => {
                proof {
                    lemma_live_idx_unique(
                        self@,
                        KeyView { owner: owner@, workflow_id: workflow_id@ },
                        i as int,
                    );
                    assert(self@.workflows[i as int] == self.workflows@[i as int]@);
                }
                Some(&self.workflows[i])
            },
            None => None,
        }
    }

    /// The execution record at key `((owner, workflow_id), execution_id)`,
    /// if any.
    pub fn get_execution(
        &self,
        owner: &Vec<u8>,
        workflow_id: &Vec<u8>,
        execution_id: &Vec<u8>,
    ) -> (r: Option<&Execution>)
        requires
            inv(self@),
        ensures
            ({
                let k = KeyView { owner: owner@, workflow_id: workflow_id@ };
                match r {
                    Some(e) => exec_exists(self@.executions, k, execution_id@) && e@ == exec_at(
                        self@.executions,
                        k,
                        execution_id@,
                    ),
                    None => !exec_exists(self@.executions, k, execution_id@),
                }
            }),
    {
        match self.find_execution(owner, workflow_id, execution_id) {
            Some(i) => {
                proof {
                    lemma_exec_idx_unique(
                        self@,
                        KeyView { owner: owner@, workflow_id: workflow_id@ },
                        execution_id@,
                        i as int,
                    );
                    assert(self@.executions[i as int] == self.executions@[i as int]@);
                }
                Some(&self.executions[i])
            },
            None => None,
        }
    }

    /// Number of live workflow records.
    pub fn num_workflows(&self) -> (n: usize)
        ensures
            n == self@.workflows.len(),
    {
        self.workflows.len()
    }

    /// Number of execution records ever created.
    pub fn num_executions(&self) -> (n: usize)
        ensures
            n == self@.executions.len(),
    {
        self.executions.len()
    }
}

} // verus!

