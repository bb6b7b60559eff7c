//! The registry's laws, stated and proved over the abstract model.
//!
//! Each law quantifies over all states and inputs its hypotheses allow, so
//! together with the operation contracts in [`crate::registry`] — each
//! operation behaves exactly as its transition function — these statements
//! hold of every reachable registry.

use crate::model::{
    count_matching, create_wf, delete_wf, exec_exists, execute_wf, inv, key_live, key_occupied,
    key_retired, lemma_create_preserves_inv, lemma_delete_preserves_inv,
    lemma_execute_preserves_inv, lemma_live_idx_unique, lemma_toggle_preserves_inv, live_idx,
    toggle_wf, update_wf, wf_at, wf_key, RegistryView,
};
use crate::records::{
    ExecutionView, ForgeFlowError, KeyView, WorkflowView, MAX_ID_LEN, MAX_NAME_LEN,
    MAX_RESULT_JSON_LEN, MAX_WORKFLOW_JSON_LEN,
};
use vstd::prelude::*;

verus! {

/// A successful `create` is immediately readable and yields a record with a
/// zero execution count, the active flag set, and equal creation and update
/// timestamps.
pub proof fn law_create_fresh_record(
    s: RegistryView,
    owner: Seq<u8>,
    workflow_id: Seq<u8>,
    name: Seq<u8>,
    workflow_json: Seq<u8>,
    now: i64,
)
    requires
        inv(s),
        workflow_id.len() <= MAX_ID_LEN,
        create_wf(s, owner, workflow_id, name, workflow_json, now).1 is Ok,
    ensures
        ({
            let s1 = create_wf(s, owner, workflow_id, name, workflow_json, now).0;
            let k = KeyView { owner, workflow_id };
            &&& inv(s1)
            &&& key_live(s1, k)
            &&& wf_at(s1, k).execution_count == 0
            &&& wf_at(s1, k).is_active == true
            &&& wf_at(s1, k).created_at == now
            &&& wf_at(s1, k).updated_at == now
            &&& wf_at(s1, k).name == name
            &&& wf_at(s1, k).workflow_json == workflow_json
            &&& wf_at(s1, k).owner == owner
        }),
{
    lemma_create_preserves_inv(s, owner, workflow_id, name, workflow_json, now);
}

/// Creating twice at the same `(owner, workflow_id)` fails the second time
/// with `AlreadyExists` — whatever the second call's name, definition and
/// time are — and leaves the registry unchanged.
pub proof fn law_create_twice_fails(
    s: RegistryView,
    owner: Seq<u8>,
    workflow_id: Seq<u8>,
    name: Seq<u8>,
    workflow_json: Seq<u8>,
    now: i64,
    name2: Seq<u8>,
    workflow_json2: Seq<u8>,
    now2: i64,
)
    requires
        inv(s),
        workflow_id.len() <= MAX_ID_LEN,
        create_wf(s, owner, workflow_id, name, workflow_json, now).1 is Ok,
    ensures
        ({
            let s1 = create_wf(s, owner, workflow_id, name, workflow_json, now).0;
            create_wf(s1, owner, workflow_id, name2, workflow_json2, now2) == (
                s1,
                Err::<(), ForgeFlowError>(ForgeFlowError::AlreadyExists),
            )
        }),
{
    lemma_create_preserves_inv(s, owner, workflow_id, name, workflow_json, now);
}

/// `update` signed by anyone but the owner fails with `Unauthorized` and
/// leaves the registry — in particular the addressed record — unchanged.
pub proof fn law_update_non_owner(
    s: RegistryView,
    k: KeyView,
    signer: Seq<u8>,
    name: Seq<u8>,
    workflow_json: Seq<u8>,
    now: i64,
)
    requires
        key_live(s, k),
        wf_at(s, k).owner != signer,
    ensures
        update_wf(s, k, signer, name, workflow_json, now) == (
            s,
            Err::<(), ForgeFlowError>(ForgeFlowError::Unauthorized),
        ),
{
}

/// `update` signed by the owner with a name over the limit fails with
/// `NameTooLong` and leaves the registry unchanged.
pub proof fn law_update_long_name(
    s: RegistryView,
    k: KeyView,
    signer: Seq<u8>,
    name: Seq<u8>,
    workflow_json: Seq<u8>,
    now: i64,
)
    requires
        key_live(s, k),
        wf_at(s, k).owner == signer,
        name.len() > MAX_NAME_LEN,
    ensures
        update_wf(s, k, signer, name, workflow_json, now) == (
            s,
            Err::<(), ForgeFlowError>(ForgeFlowError::NameTooLong),
        ),
{
}

/// In every state satisfying the invariant, each live workflow's
/// `execution_count` equals the number of execution records referencing it;
/// since `execute_wf` appends exactly one matching record per success, after
/// `N` successful executions against a workflow created with count zero the
/// count is exactly `N`.
pub proof fn law_execution_count_correct(s: RegistryView, k: KeyView)
    requires
        inv(s),
        key_live(s, k),
    ensures
        wf_at(s, k).execution_count == count_matching(s.executions, k),
{
    let i = live_idx(s, k);
    assert(0 <= i < s.workflows.len() && wf_key(s.workflows[i]) == k);
}

/// A successful `execute` appends exactly one execution record, carrying the
/// workflow's key as its back-reference and the executor's identity, and
/// raises the parent's `execution_count` by exactly one.
pub proof fn law_execute_effect(
    s: RegistryView,
    k: KeyView,
    executor: Seq<u8>,
    execution_id: Seq<u8>,
    result_json: Seq<u8>,
    success: bool,
    now: i64,
)
    requires
        inv(s),
        execution_id.len() <= MAX_ID_LEN,
        s.executions.len() < u64::MAX,
        execute_wf(s, k, executor, execution_id, result_json, success, now).1 is Ok,
    ensures
        ({
            let s1 = execute_wf(s, k, executor, execution_id, result_json, success, now).0;
            &&& inv(s1)
            &&& key_live(s1, k)
            &&& wf_at(s1, k).execution_count == wf_at(s, k).execution_count + 1
            &&& s1.executions == s.executions.push(
                ExecutionView {
                    workflow: k,
                    executor,
                    execution_id,
                    result_json,
                    success,
                    executed_at: now,
                },
            )
        }),
{
    lemma_execute_preserves_inv(s, k, executor, execution_id, result_json, success, now);
}

/// `execute` with an execution id already used against the same live
/// workflow fails with `AlreadyExists` and leaves the registry — in
/// particular the workflow's `execution_count` — unchanged.
pub proof fn law_execute_duplicate_id(
    s: RegistryView,
    k: KeyView,
    executor: Seq<u8>,
    execution_id: Seq<u8>,
    result_json: Seq<u8>,
    success: bool,
    now: i64,
)
    requires
        key_live(s, k),
        exec_exists(s.executions, k, execution_id),
    ensures
        execute_wf(s, k, executor, execution_id, result_json, success, now) == (
            s,
            Err::<(), ForgeFlowError>(ForgeFlowError::AlreadyExists),
        ),
{
}

/// `toggle` by the owner flips `is_active` and changes nothing else: the
/// record keeps its `updated_at` — the deliberate asymmetry with `update` —
/// and the rest of the registry is untouched.
pub proof fn law_toggle_flips_only_active(s: RegistryView, k: KeyView, signer: Seq<u8>)
    requires
        inv(s),
        key_live(s, k),
        wf_at(s, k).owner == signer,
    ensures
        toggle_wf(s, k, signer).1 == Ok::<(), ForgeFlowError>(()),
        ({
            let s1 = toggle_wf(s, k, signer).0;
            &&& inv(s1)
            &&& key_live(s1, k)
            &&& wf_at(s1, k) == (WorkflowView { is_active: !wf_at(s, k).is_active, ..wf_at(s, k) })
            &&& wf_at(s1, k).updated_at == wf_at(s, k).updated_at
            &&& s1.executions == s.executions
            &&& s1.retired == s.retired
        }),
{
    let i = live_idx(s, k);
    assert(0 <= i < s.workflows.len() && wf_key(s.workflows[i]) == k);
    lemma_toggle_preserves_inv(s, k, signer);
    let s1 = toggle_wf(s, k, signer).0;
    lemma_live_idx_unique(s1, k, i);
}

/// `delete` by the owner removes the workflow and retires its key: any
/// later `update`, `toggle` or `execute` against it fails with `NotFound`,
/// and a later `create` at the same key fails with `AlreadyExists` (the
/// reclaimed location is not reusable).
pub proof fn law_delete_removes(
    s: RegistryView,
    k: KeyView,
    signer: Seq<u8>,
    name: Seq<u8>,
    workflow_json: Seq<u8>,
    executor: Seq<u8>,
    execution_id: Seq<u8>,
    result_json: Seq<u8>,
    success: bool,
    now: i64,
)
    requires
        inv(s),
        key_live(s, k),
        wf_at(s, k).owner == signer,
    ensures
        delete_wf(s, k, signer).1 == Ok::<(), ForgeFlowError>(()),
        ({
            let s1 = delete_wf(s, k, signer).0;
            &&& inv(s1)
            &&& !key_live(s1, k)
            &&& key_retired(s1, k)
            &&& update_wf(s1, k, signer, name, workflow_json, now) == (
                s1,
                Err::<(), ForgeFlowError>(ForgeFlowError::NotFound),
            )
            &&& toggle_wf(s1, k, signer) == (
                s1,
                Err::<(), ForgeFlowError>(ForgeFlowError::NotFound),
            )
            &&& execute_wf(s1, k, executor, execution_id, result_json, success, now) == (
                s1,
                Err::<(), ForgeFlowError>(ForgeFlowError::NotFound),
            )
            &&& create_wf(s1, k.owner, k.workflow_id, name, workflow_json, now).1 == Err::<
                (),
                ForgeFlowError,
            >(ForgeFlowError::AlreadyExists)
        }),
{
    let i = live_idx(s, k);
    assert(0 <= i < s.workflows.len() && wf_key(s.workflows[i]) == k);
    lemma_delete_preserves_inv(s, k, signer);
    assert(key_occupied(delete_wf(s, k, signer).0, k));
}

/// `delete` signed by anyone but the owner fails with `Unauthorized` and the
/// record persists unchanged.
pub proof fn law_delete_non_owner(s: RegistryView, k: KeyView, signer: Seq<u8>)
    requires
        key_live(s, k),
        wf_at(s, k).owner != signer,
    ensures
        delete_wf(s, k, signer) == (s, Err::<(), ForgeFlowError>(ForgeFlowError::Unauthorized)),
{
}

} // verus!
