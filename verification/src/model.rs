//! The mathematical model of the registry: its abstract state, the validity
//! invariant, and one transition function per operation.
//!
//! Each executable operation's contract says that it behaves exactly as the
//! corresponding transition function here, so every law about the registry
//! can be stated and proved purely over this model.

use crate::records::{
    ExecutionView, ForgeFlowError, KeyView, WorkflowView, MAX_ID_LEN, MAX_NAME_LEN,
    MAX_RESULT_JSON_LEN, MAX_WORKFLOW_JSON_LEN,
};
use vstd::prelude::*;

verus! {

/// Abstract state of the whole registry.
///
/// `workflows` holds the live workflow records, `retired` the keys of
/// workflows that were deleted (a reclaimed location is not reusable, so
/// retired keys stay occupied forever), and `executions` every execution
/// record ever created.
#[verifier::ext_equal]
pub struct RegistryView {
    pub workflows: Seq<WorkflowView>,
    pub retired: Seq<KeyView>,
    pub executions: Seq<ExecutionView>,
}

/// The composite key a workflow record is addressed by.
pub open spec fn wf_key(w: WorkflowView) -> KeyView {
    KeyView { owner: w.owner, workflow_id: w.workflow_id }
}

/// Whether some record in `ws` carries key `k`.
pub open spec fn key_in(ws: Seq<WorkflowView>, k: KeyView) -> bool {
    exists|i: int| 0 <= i < ws.len() && wf_key(ws[i]) == k
}

/// Whether a live workflow record exists at key `k`.
pub open spec fn key_live(s: RegistryView, k: KeyView) -> bool {
    key_in(s.workflows, k)
}

/// Index of the live workflow record at key `k` (meaningful when
/// `key_live(s, k)` holds; unique by the registry invariant).
pub open spec fn live_idx(s: RegistryView, k: KeyView) -> int {
    choose|i: int| 0 <= i < s.workflows.len() && wf_key(s.workflows[i]) == k
}

/// The live workflow record at key `k`.
pub open spec fn wf_at(s: RegistryView, k: KeyView) -> WorkflowView {
    s.workflows[live_idx(s, k)]
}

/// Whether key `k` once addressed a workflow that has since been deleted.
pub open spec fn key_retired(s: RegistryView, k: KeyView) -> bool {
    s.retired.contains(k)
}

/// Whether the location at key `k` is occupied: either a live record exists
/// there, or one existed and was reclaimed.
pub open spec fn key_occupied(s: RegistryView, k: KeyView) -> bool {
    key_live(s, k) || key_retired(s, k)
}

/// Whether an execution record with id `execution_id` exists against the
/// workflow addressed by `k`.
pub open spec fn exec_exists(es: Seq<ExecutionView>, k: KeyView, execution_id: Seq<u8>) -> bool {
    exists|i: int|
        0 <= i < es.len() && es[i].workflow == k && es[i].execution_id == execution_id
}

/// Index of the execution record with id `execution_id` against the
/// workflow key `k` (meaningful when `exec_exists` holds; unique by the
/// registry invariant).
pub open spec fn exec_idx(es: Seq<ExecutionView>, k: KeyView, execution_id: Seq<u8>) -> int {
    choose|i: int|
        0 <= i < es.len() && es[i].workflow == k && es[i].execution_id == execution_id
}

/// The execution record with id `execution_id` against the workflow key `k`.
pub open spec fn exec_at(es: Seq<ExecutionView>, k: KeyView, execution_id: Seq<u8>) -> ExecutionView {
    es[exec_idx(es, k, execution_id)]
}

/// Number of execution records referencing the workflow key `k`.
pub open spec fn count_matching(es: Seq<ExecutionView>, k: KeyView) -> nat
    decreases es.len(),
{
    if es.len() == 0 {
        0
    } else {
        count_matching(es.drop_last(), k) + if es.last().workflow == k {
            1nat
        } else {
            0nat
        }
    }
}

/// Field constraints of a stored workflow record.
pub open spec fn valid_workflow(w: WorkflowView) -> bool {
    &&& w.workflow_id.len() <= MAX_ID_LEN
    &&& w.name.len() <= MAX_NAME_LEN
    &&& w.workflow_json.len() <= MAX_WORKFLOW_JSON_LEN
    &&& w.created_at <= w.updated_at
}

/// Field constraints of a stored execution record.
pub open spec fn valid_execution(e: ExecutionView) -> bool {
    &&& e.execution_id.len() <= MAX_ID_LEN
    &&& e.result_json.len() <= MAX_RESULT_JSON_LEN
}

/// The registry invariant: keys address at most one live record, retired
/// keys are never live again, every stored record satisfies its field
/// constraints, every workflow's `execution_count` equals the number of
/// execution records referencing it, execution keys are unique, and every
/// execution references an occupied workflow location.
pub open spec fn inv(s: RegistryView) -> bool {
    &&& forall|i: int, j: int|
        0 <= i < j < s.workflows.len() ==> wf_key(#[trigger] s.workflows[i]) != wf_key(
            #[trigger] s.workflows[j],
        )
    &&& forall|i: int|
        0 <= i < s.workflows.len() ==> !key_retired(s, wf_key(#[trigger] s.workflows[i]))
    &&& forall|i: int| 0 <= i < s.workflows.len() ==> valid_workflow(#[trigger] s.workflows[i])
    &&& forall|i: int|
        0 <= i < s.workflows.len() ==> (#[trigger] s.workflows[i]).execution_count
            == count_matching(s.executions, wf_key(s.workflows[i]))
    &&& forall|i: int, j: int|
        0 <= i < j < s.executions.len() ==> !((#[trigger] s.executions[i]).workflow == (
        #[trigger] s.executions[j]).workflow && s.executions[i].execution_id
            == s.executions[j].execution_id)
    &&& forall|i: int| 0 <= i < s.executions.len() ==> valid_execution(#[trigger] s.executions[i])
    &&& forall|i: int|
        0 <= i < s.executions.len() ==> key_occupied(s, (#[trigger] s.executions[i]).workflow)
}

/// Whether `now` is no earlier than any live record's creation time; holds
/// of any clock that never runs backwards across operations.
pub open spec fn clock_ok(s: RegistryView, now: i64) -> bool {
    forall|i: int| 0 <= i < s.workflows.len() ==> (#[trigger] s.workflows[i]).created_at <= now
}

/// Transition of `create_workflow`: fails `AlreadyExists` on an occupied
/// location, then rejects oversized fields, else appends a fresh record with
/// both timestamps at `now`, a zero execution count, and the active flag set.
pub open spec fn create_wf(
    s: RegistryView,
    owner: Seq<u8>,
    workflow_id: Seq<u8>,
    name: Seq<u8>,
    workflow_json: Seq<u8>,
    now: i64,
) -> (RegistryView, Result<(), ForgeFlowError>) {
    let k = KeyView { owner, workflow_id };
    if key_occupied(s, k) {
        (s, Err(ForgeFlowError::AlreadyExists))
    } else if name.len() > MAX_NAME_LEN {
        (s, Err(ForgeFlowError::NameTooLong))
    } else if workflow_json.len() > MAX_WORKFLOW_JSON_LEN {
        (s, Err(ForgeFlowError::WorkflowTooLarge))
    } else {
        let w = WorkflowView {
            owner,
            workflow_id,
            name,
            workflow_json,
            created_at: now,
            updated_at: now,
            execution_count: 0,
            is_active: true,
        };
        (RegistryView { workflows: s.workflows.push(w), ..s }, Ok(()))
    }
}

/// Transition of `update_workflow`: fails `NotFound` on an unoccupied or
/// retired location, `Unauthorized` unless the signer is the recorded owner,
/// then rejects oversized fields, else replaces `name` and `workflow_json`
/// and bumps `updated_at` to `now`, leaving every other field unchanged.
pub open spec fn update_wf(
    s: RegistryView,
    k: KeyView,
    signer: Seq<u8>,
    name: Seq<u8>,
    workflow_json: Seq<u8>,
    now: i64,
) -> (RegistryView, Result<(), ForgeFlowError>) {
    if !key_live(s, k) {
        (s, Err(ForgeFlowError::NotFound))
    } else {
        let i = live_idx(s, k);
        let w = s.workflows[i];
        if w.owner != signer {
            (s, Err(ForgeFlowError::Unauthorized))
        } else if name.len() > MAX_NAME_LEN {
            (s, Err(ForgeFlowError::NameTooLong))
        } else if workflow_json.len() > MAX_WORKFLOW_JSON_LEN {
            (s, Err(ForgeFlowError::WorkflowTooLarge))
        } else {
            let w2 = WorkflowView { name, workflow_json, updated_at: now, ..w };
            (RegistryView { workflows: s.workflows.update(i, w2), ..s }, Ok(()))
        }
    }
}

/// Transition of `toggle_workflow`: the same existence and ownership gates
/// as `update_wf`, then flips `is_active` and changes nothing else — in
/// particular `updated_at` keeps its old value.
pub open spec fn toggle_wf(s: RegistryView, k: KeyView, signer: Seq<u8>) -> (
    RegistryView,
    Result<(), ForgeFlowError>,
) {
    if !key_live(s, k) {
        (s, Err(ForgeFlowError::NotFound))
    } else {
        let i = live_idx(s, k);
        let w = s.workflows[i];
        if w.owner != signer {
            (s, Err(ForgeFlowError::Unauthorized))
        } else {
            let w2 = WorkflowView { is_active: !w.is_active, ..w };
            (RegistryView { workflows: s.workflows.update(i, w2), ..s }, Ok(()))
        }
    }
}

/// Transition of `delete_workflow`: the same existence and ownership gates
/// as `update_wf`, then removes the record and retires its key so the
/// location is never reused. Execution records referencing it remain.
pub open spec fn delete_wf(s: RegistryView, k: KeyView, signer: Seq<u8>) -> (
    RegistryView,
    Result<(), ForgeFlowError>,
) {
    if !key_live(s, k) {
        (s, Err(ForgeFlowError::NotFound))
    } else {
        let i = live_idx(s, k);
        let w = s.workflows[i];
        if w.owner != signer {
            (s, Err(ForgeFlowError::Unauthorized))
        } else {
            (
                RegistryView {
                    workflows: s.workflows.remove(i),
                    retired: s.retired.push(k),
                    ..s
                },
                Ok(()),
            )
        }
    }
}

/// Transition of `execute_workflow`: fails `NotFound` unless a live workflow
/// is at `k`, `AlreadyExists` if the execution id was already used against
/// it, then rejects an oversized result, else appends the execution record
/// and increments the workflow's `execution_count` by exactly one — with no
/// ownership gate and no check of `is_active`, both deliberately.
pub open spec fn execute_wf(
    s: RegistryView,
    k: KeyView,
    executor: Seq<u8>,
    execution_id: Seq<u8>,
    result_json: Seq<u8>,
    success: bool,
    now: i64,
) -> (RegistryView, Result<(), ForgeFlowError>) {
    if !key_live(s, k) {
        (s, Err(ForgeFlowError::NotFound))
    } else if exec_exists(s.executions, k, execution_id) {
        (s, Err(ForgeFlowError::AlreadyExists))
    } else if result_json.len() > MAX_RESULT_JSON_LEN {
        (s, Err(ForgeFlowError::WorkflowTooLarge))
    } else {
        let i = live_idx(s, k);
        let w = s.workflows[i];
        let w2 = WorkflowView { execution_count: (w.execution_count + 1) as u64, ..w };
        let e = ExecutionView {
            workflow: k,
            executor,
            execution_id,
            result_json,
            success,
            executed_at: now,
        };
        (
            RegistryView {
                workflows: s.workflows.update(i, w2),
                executions: s.executions.push(e),
                ..s
            },
            Ok(()),
        )
    }
}

/// The number of matching execution records never exceeds the number of
/// records.
pub proof fn lemma_count_le_len(es: Seq<ExecutionView>, k: KeyView)
    ensures
        count_matching(es, k) <= es.len(),
    decreases es.len(),
{
    if es.len() > 0 {
        lemma_count_le_len(es.drop_last(), k);
    }
}

/// Appending one execution record raises the matching count of its own key
/// by one and leaves every other key's count unchanged.
pub proof fn lemma_count_push(es: Seq<ExecutionView>, k: KeyView, e: ExecutionView)
    ensures
        count_matching(es.push(e), k) == count_matching(es, k) + if e.workflow == k {
            1nat
        } else {
            0nat
        },
{
    assert(es.push(e).drop_last() =~= es);
}

/// A key that no execution record references has a matching count of zero.
pub proof fn lemma_count_zero(es: Seq<ExecutionView>, k: KeyView)
    requires
        forall|i: int| 0 <= i < es.len() ==> (#[trigger] es[i]).workflow != k,
    ensures
        count_matching(es, k) == 0,
    decreases es.len(),
{
    if es.len() > 0 {
        assert(forall|i: int|
            0 <= i < es.drop_last().len() ==> (#[trigger] es.drop_last()[i]).workflow != k);
        lemma_count_zero(es.drop_last(), k);
    }
}

/// Under the invariant a key addresses at most one live record, so any index
/// whose record carries key `k` is the index `live_idx` picks.
pub proof fn lemma_live_idx_unique(s: RegistryView, k: KeyView, i: int)
    requires
        inv(s),
        0 <= i < s.workflows.len(),
        wf_key(s.workflows[i]) == k,
    ensures
        key_live(s, k),
        live_idx(s, k) == i,
{
    assert(key_live(s, k));
    let j = live_idx(s, k);
    assert(0 <= j < s.workflows.len() && wf_key(s.workflows[j]) == k);
}

/// Under the invariant an execution id is used at most once per workflow, so
/// any index whose record matches `(k, execution_id)` is the index
/// `exec_idx` picks.
pub proof fn lemma_exec_idx_unique(s: RegistryView, k: KeyView, execution_id: Seq<u8>, i: int)
    requires
        inv(s),
        0 <= i < s.executions.len(),
        s.executions[i].workflow == k,
        s.executions[i].execution_id == execution_id,
    ensures
        exec_exists(s.executions, k, execution_id),
        exec_idx(s.executions, k, execution_id) == i,
{
    assert(exec_exists(s.executions, k, execution_id));
    let j = exec_idx(s.executions, k, execution_id);
    assert(0 <= j < s.executions.len() && s.executions[j].workflow == k
        && s.executions[j].execution_id == execution_id);
}

/// A key present in a record sequence stays present when a record is
/// appended.
proof fn lemma_live_after_push(ws: Seq<WorkflowView>, w: WorkflowView, x: KeyView)
    requires
        key_in(ws, x),
    ensures
        key_in(ws.push(w), x),
{
    let i = choose|i: int| 0 <= i < ws.len() && wf_key(ws[i]) == x;
    assert(wf_key(ws.push(w)[i]) == x);
}

/// Replacing the record at index `i` by one with the same key leaves every
/// key's presence unchanged.
proof fn lemma_live_after_update(ws: Seq<WorkflowView>, i: int, w2: WorkflowView, x: KeyView)
    requires
        0 <= i < ws.len(),
        wf_key(w2) == wf_key(ws[i]),
    ensures
        key_in(ws.update(i, w2), x) == key_in(ws, x),
{
    let ws2 = ws.update(i, w2);
    if key_in(ws, x) {
        let j = choose|j: int| 0 <= j < ws.len() && wf_key(ws[j]) == x;
        assert(wf_key(ws2[j]) == x);
    }
    if key_in(ws2, x) {
        let j = choose|j: int| 0 <= j < ws2.len() && wf_key(ws2[j]) == x;
        assert(wf_key(ws[j]) == x);
    }
}

/// `create_wf` preserves the registry invariant, and on success the new
/// record is live at its key with both timestamps at `now`, a zero count and
/// the active flag set.
pub proof fn lemma_create_preserves_inv(
    s: RegistryView,
    owner: Seq<u8>,
    workflow_id: Seq<u8>,
    name: Seq<u8>,
    workflow_json: Seq<u8>,
    now: i64,
)
    requires
        inv(s),
        workflow_id.len() <= MAX_ID_LEN,
    ensures
        inv(create_wf(s, owner, workflow_id, name, workflow_json, now).0),
        ({
            let k = KeyView { owner, workflow_id };
            let (s2, r) = create_wf(s, owner, workflow_id, name, workflow_json, now);
            r is Ok ==> {
                &&& key_live(s2, k)
                &&& wf_at(s2, k) == WorkflowView {
                    owner,
                    workflow_id,
                    name,
                    workflow_json,
                    created_at: now,
                    updated_at: now,
                    execution_count: 0,
                    is_active: true,
                }
            }
        }),
{
    let k = KeyView { owner, workflow_id };
    let (s2, r) = create_wf(s, owner, workflow_id, name, workflow_json, now);
    if r is Ok {
        let n = s.workflows.len() as int;
        let w = WorkflowView {
            owner,
            workflow_id,
            name,
            workflow_json,
            created_at: now,
            updated_at: now,
            execution_count: 0,
            is_active: true,
        };
        assert(wf_key(w) == k);
        assert(forall|i: int| 0 <= i < n ==> wf_key(#[trigger] s.workflows[i]) != k);
        // the fresh record's count: no execution references an unoccupied key
        assert(forall|i: int|
            0 <= i < s.executions.len() ==> (#[trigger] s.executions[i]).workflow != k);
        lemma_count_zero(s.executions, k);
        // executions still reference occupied keys
        assert forall|i: int|
            0 <= i < s2.executions.len() implies key_occupied(
            s2,
            (#[trigger] s2.executions[i]).workflow,
        ) by {
            if key_live(s, s.executions[i].workflow) {
                lemma_live_after_push(s.workflows, w, s.executions[i].workflow);
            }
        }
        lemma_live_idx_unique(s2, k, n);
    }
}

/// Replacing the live record at key `k` by one with the same key, the same
/// execution count and valid fields preserves the registry invariant; this
/// covers both `update_wf` and `toggle_wf`.
proof fn lemma_update_at_preserves_inv(s: RegistryView, i: int, w2: WorkflowView)
    requires
        inv(s),
        0 <= i < s.workflows.len(),
        wf_key(w2) == wf_key(s.workflows[i]),
        w2.execution_count == s.workflows[i].execution_count,
        valid_workflow(w2),
    ensures
        inv(RegistryView { workflows: s.workflows.update(i, w2), ..s }),
{
    let s2 = RegistryView { workflows: s.workflows.update(i, w2), ..s };
    assert(forall|j: int|
        0 <= j < s2.workflows.len() ==> wf_key(#[trigger] s2.workflows[j]) == wf_key(
            s.workflows[j],
        ));
    assert forall|j: int|
        0 <= j < s2.executions.len() implies key_occupied(
        s2,
        (#[trigger] s2.executions[j]).workflow,
    ) by {
        if key_live(s, s.executions[j].workflow) {
            lemma_live_after_update(s.workflows, i, w2, s.executions[j].workflow);
        }
    }
}

/// `update_wf` preserves the registry invariant whenever `now` is no earlier
/// than any live record's creation time.
pub proof fn lemma_update_preserves_inv(
    s: RegistryView,
    k: KeyView,
    signer: Seq<u8>,
    name: Seq<u8>,
    workflow_json: Seq<u8>,
    now: i64,
)
    requires
        inv(s),
        clock_ok(s, now),
    ensures
        inv(update_wf(s, k, signer, name, workflow_json, now).0),
{
    let (s2, r) = update_wf(s, k, signer, name, workflow_json, now);
    if r is Ok {
        let i = live_idx(s, k);
        let w = s.workflows[i];
        assert(0 <= i < s.workflows.len() && wf_key(s.workflows[i]) == k);
        let w2 = WorkflowView { name, workflow_json, updated_at: now, ..w };
        lemma_update_at_preserves_inv(s, i, w2);
    }
}

/// `toggle_wf` preserves the registry invariant.
pub proof fn lemma_toggle_preserves_inv(s: RegistryView, k: KeyView, signer: Seq<u8>)
    requires
        inv(s),
    ensures
        inv(toggle_wf(s, k, signer).0),
{
    let (s2, r) = toggle_wf(s, k, signer);
    if r is Ok {
        let i = live_idx(s, k);
        let w = s.workflows[i];
        assert(0 <= i < s.workflows.len() && wf_key(s.workflows[i]) == k);
        let w2 = WorkflowView { is_active: !w.is_active, ..w };
        lemma_update_at_preserves_inv(s, i, w2);
    }
}

/// `delete_wf` preserves the registry invariant, and on success the key is
/// no longer live but is retired, so the location never becomes reusable.
pub proof fn lemma_delete_preserves_inv(s: RegistryView, k: KeyView, signer: Seq<u8>)
    requires
        inv(s),
    ensures
        inv(delete_wf(s, k, signer).0),
        delete_wf(s, k, signer).1 is Ok ==> !key_live(delete_wf(s, k, signer).0, k)
            && key_retired(delete_wf(s, k, signer).0, k),
{
    let (s2, r) = delete_wf(s, k, signer);
    if r is Ok {
        let i = live_idx(s, k);
        assert(0 <= i < s.workflows.len() && wf_key(s.workflows[i]) == k);
        let n = s.workflows.len() as int;
        // every remaining record is one of the old records at another index
        assert(forall|j: int|
            0 <= j < n - 1 ==> #[trigger] s2.workflows[j] == if j < i {
                s.workflows[j]
            } else {
                s.workflows[j + 1]
            });
        assert(s2.retired.last() == k);
        // the deleted key is not live any more: its record was the only one
        assert forall|j: int| 0 <= j < n - 1 implies wf_key(#[trigger] s2.workflows[j]) != k by {
            if j < i {
                lemma_live_idx_unique(s, k, i);
            }
        }
        assert(!key_live(s2, k));
        // retired keys of s stay retired, and k joins them
        assert forall|x: KeyView|
            s.retired.contains(x) implies #[trigger] s2.retired.contains(x) by {
            let m = choose|m: int| 0 <= m < s.retired.len() && s.retired[m] == x;
            assert(s2.retired[m] == x);
        }
        assert(key_retired(s2, k));
        // no remaining record's key is retired in s2
        assert forall|j: int|
            0 <= j < s2.workflows.len() implies !key_retired(
            s2,
            wf_key(#[trigger] s2.workflows[j]),
        ) by {
            let x = wf_key(s2.workflows[j]);
            assert(!s.retired.contains(x));
            assert(x != k);
            if s2.retired.contains(x) {
                let m = choose|m: int| 0 <= m < s2.retired.len() && s2.retired[m] == x;
                assert(m < s.retired.len() ==> s.retired[m] == x);
            }
        }
        // executions still reference occupied keys
        assert forall|j: int|
            0 <= j < s2.executions.len() implies key_occupied(
            s2,
            (#[trigger] s2.executions[j]).workflow,
        ) by {
            let x = s.executions[j].workflow;
            if key_live(s, x) {
                let m = choose|m: int| 0 <= m < s.workflows.len() && wf_key(s.workflows[m]) == x;
                if m == i {
                    assert(x == k);
                    assert(s2.retired.contains(k));
                } else if m < i {
                    assert(wf_key(s2.workflows[m]) == x);
                } else {
                    assert(wf_key(s2.workflows[m - 1]) == x);
                }
            } else {
                assert(s.retired.contains(x));
                assert(s2.retired.contains(x));
            }
        }
    }
}

/// `execute_wf` preserves the registry invariant, and on success it appends
/// exactly one execution record, carrying `k` as its back-reference, and
/// raises the parent workflow's count by exactly one.
pub proof fn lemma_execute_preserves_inv(
    s: RegistryView,
    k: KeyView,
    executor: Seq<u8>,
    execution_id: Seq<u8>,
    result_json: Seq<u8>,
    success: bool,
    now: i64,
)
    requires
        inv(s),
        execution_id.len() <= MAX_ID_LEN,
        s.executions.len() < u64::MAX,
    ensures
        inv(execute_wf(s, k, executor, execution_id, result_json, success, now).0),
        ({
            let (s2, r) = execute_wf(s, k, executor, execution_id, result_json, success, now);
            r is Ok ==> {
                &&& key_live(s2, k)
                &&& wf_at(s2, k) == WorkflowView {
                    execution_count: (wf_at(s, k).execution_count + 1) as u64,
                    ..wf_at(s, k)
                }
                &&& wf_at(s, k).execution_count < u64::MAX
                &&& s2.executions == s.executions.push(
                    ExecutionView {
                        workflow: k,
                        executor,
                        execution_id,
                        result_json,
                        success,
                        executed_at: now,
                    },
                )
            }
        }),
{
    let (s2, r) = execute_wf(s, k, executor, execution_id, result_json, success, now);
    if r is Ok {
        let i = live_idx(s, k);
        let w = s.workflows[i];
        assert(0 <= i < s.workflows.len() && wf_key(s.workflows[i]) == k);
        lemma_count_le_len(s.executions, k);
        assert(w.execution_count < u64::MAX);
        let w2 = WorkflowView { execution_count: (w.execution_count + 1) as u64, ..w };
        let e = ExecutionView {
            workflow: k,
            executor,
            execution_id,
            result_json,
            success,
            executed_at: now,
        };
        assert(forall|j: int|
            0 <= j < s2.workflows.len() ==> wf_key(#[trigger] s2.workflows[j]) == wf_key(
                s.workflows[j],
            ));
        // counts: the parent's rises by one, every other record's is unchanged
        assert forall|j: int|
            0 <= j < s2.workflows.len() implies (#[trigger] s2.workflows[j]).execution_count
            == count_matching(s2.executions, wf_key(s2.workflows[j])) by {
            lemma_count_push(s.executions, wf_key(s.workflows[j]), e);
            if j != i {
                if j < i {
                    assert(wf_key(s.workflows[j]) != wf_key(s.workflows[i]));
                } else {
                    assert(wf_key(s.workflows[i]) != wf_key(s.workflows[j]));
                }
            }
        }
        // execution keys stay pairwise distinct: the new id was unused
        assert forall|a: int, b: int|
            0 <= a < b < s2.executions.len() implies !((#[trigger] s2.executions[a]).workflow == (
        #[trigger] s2.executions[b]).workflow && s2.executions[a].execution_id
            == s2.executions[b].execution_id) by {
            if b == s.executions.len() {
                if s2.executions[a].workflow == k && s2.executions[a].execution_id
                    == execution_id {
                    assert(exec_exists(s.executions, k, execution_id));
                }
            }
        }
        // executions still reference occupied keys
        assert forall|j: int|
            0 <= j < s2.executions.len() implies key_occupied(
            s2,
            (#[trigger] s2.executions[j]).workflow,
        ) by {
            let x = s2.executions[j].workflow;
            if j < s.executions.len() {
                if key_live(s, x) {
                    lemma_live_after_update(s.workflows, i, w2, x);
                }
            } else {
                lemma_live_after_update(s.workflows, i, w2, k);
            }
        }
        lemma_live_idx_unique(s2, k, i);
        lemma_live_idx_unique(s, k, i);
    }
}

} // verus!
