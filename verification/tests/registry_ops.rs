use forgeflow::records::{
    CreateWorkflow, DeleteWorkflow, ExecuteWorkflow, ForgeFlowError, UpdateWorkflow, WorkflowKey,
};
use forgeflow::registry::Registry;

fn b(s: &str) -> Vec<u8> {
    s.as_bytes().to_vec()
}

fn key(owner: &str, workflow_id: &str) -> WorkflowKey {
    WorkflowKey { owner: b(owner), workflow_id: b(workflow_id) }
}

fn create(r: &mut Registry, owner: &str, wid: &str, name: &str, json: &str, now: i64) -> Result<(), ForgeFlowError> {
    r.create_workflow(CreateWorkflow { owner: b(owner) }, b(wid), b(name), b(json), now)
}

#[test]
fn create_then_read_fresh_record() {
    let mut r = Registry::new();
    create(&mut r, "alice", "wf", "report", "{}", 1000).unwrap();
    let w = r.get_workflow(&b("alice"), &b("wf")).unwrap();
    assert_eq!(w.execution_count, 0);
    assert!(w.is_active);
    assert_eq!(w.created_at, 1000);
    assert_eq!(w.updated_at, 1000);
    assert_eq!(w.owner, b("alice"));
    assert_eq!(w.workflow_id, b("wf"));
    assert_eq!(w.name, b("report"));
    assert_eq!(w.workflow_json, b("{}"));
}

#[test]
fn create_twice_fails_already_exists() {
    let mut r = Registry::new();
    create(&mut r, "alice", "wf", "one", "{}", 1000).unwrap();
    let second = create(&mut r, "alice", "wf", "two", "{\"x\":1}", 2000);
    assert_eq!(second, Err(ForgeFlowError::AlreadyExists));
    // the first record is untouched
    let w = r.get_workflow(&b("alice"), &b("wf")).unwrap();
    assert_eq!(w.name, b("one"));
    assert_eq!(w.updated_at, 1000);
}

#[test]
fn same_workflow_id_under_another_owner_is_a_fresh_location() {
    let mut r = Registry::new();
    create(&mut r, "alice", "wf", "a", "{}", 1000).unwrap();
    create(&mut r, "bob", "wf", "b", "{}", 1000).unwrap();
    assert_eq!(r.get_workflow(&b("alice"), &b("wf")).unwrap().name, b("a"));
    assert_eq!(r.get_workflow(&b("bob"), &b("wf")).unwrap().name, b("b"));
}

#[test]
fn update_by_owner_changes_name_json_and_updated_at() {
    let mut r = Registry::new();
    create(&mut r, "alice", "wf", "old", "{}", 1000).unwrap();
    let res = r.update_workflow(
        UpdateWorkflow { workflow: key("alice", "wf"), owner: b("alice") },
        b("new"),
        b("{\"v\":2}"),
        1500,
    );
    assert_eq!(res, Ok(()));
    let w = r.get_workflow(&b("alice"), &b("wf")).unwrap();
    assert_eq!(w.name, b("new"));
    assert_eq!(w.workflow_json, b("{\"v\":2}"));
    assert_eq!(w.created_at, 1000);
    assert_eq!(w.updated_at, 1500);
    assert_eq!(w.execution_count, 0);
    assert!(w.is_active);
}

#[test]
fn update_by_non_owner_fails_unauthorized_and_record_unchanged() {
    let mut r = Registry::new();
    create(&mut r, "alice", "wf", "old", "{}", 1000).unwrap();
    let res = r.update_workflow(
        UpdateWorkflow { workflow: key("alice", "wf"), owner: b("mallory") },
        b("new"),
        b("{}"),
        1500,
    );
    assert_eq!(res, Err(ForgeFlowError::Unauthorized));
    let w = r.get_workflow(&b("alice"), &b("wf")).unwrap();
    assert_eq!(w.name, b("old"));
    assert_eq!(w.updated_at, 1000);
}

#[test]
fn update_with_129_byte_name_fails_name_too_long() {
    let mut r = Registry::new();
    create(&mut r, "alice", "wf", "old", "{}", 1000).unwrap();
    let long_name = vec![b'x'; 129];
    let res = r.update_workflow(
        UpdateWorkflow { workflow: key("alice", "wf"), owner: b("alice") },
        long_name,
        b("{}"),
        1500,
    );
    assert_eq!(res, Err(ForgeFlowError::NameTooLong));
    let w = r.get_workflow(&b("alice"), &b("wf")).unwrap();
    assert_eq!(w.name, b("old"));
    assert_eq!(w.updated_at, 1000);
}

#[test]
fn size_limits_are_exact() {
    let mut r = Registry::new();
    // a 128-byte name and a 10000-byte definition are accepted
    assert_eq!(
        r.create_workflow(
            CreateWorkflow { owner: b("alice") },
            b("wf"),
            vec![b'n'; 128],
            vec![b'j'; 10000],
            1000,
        ),
        Ok(())
    );
    // one byte more in the name is rejected
    assert_eq!(
        r.create_workflow(
            CreateWorkflow { owner: b("alice") },
            b("wf2"),
            vec![b'n'; 129],
            b("{}"),
            1000,
        ),
        Err(ForgeFlowError::NameTooLong)
    );
    // one byte more in the definition is rejected
    assert_eq!(
        r.create_workflow(
            CreateWorkflow { owner: b("alice") },
            b("wf2"),
            b("n"),
            vec![b'j'; 10001],
            1000,
        ),
        Err(ForgeFlowError::WorkflowTooLarge)
    );
    // nothing was created by the failed calls
    assert!(r.get_workflow(&b("alice"), &b("wf2")).is_none());
    // a 5000-byte result is accepted, 5001 bytes are rejected
    assert_eq!(
        r.execute_workflow(
            ExecuteWorkflow { workflow: key("alice", "wf"), executor: b("bob") },
            b("run1"),
            vec![b'r'; 5000],
            true,
            1100,
        ),
        Ok(())
    );
    assert_eq!(
        r.execute_workflow(
            ExecuteWorkflow { workflow: key("alice", "wf"), executor: b("bob") },
            b("run2"),
            vec![b'r'; 5001],
            true,
            1100,
        ),
        Err(ForgeFlowError::WorkflowTooLarge)
    );
    assert_eq!(r.get_workflow(&b("alice"), &b("wf")).unwrap().execution_count, 1);
}

#[test]
fn distinct_executions_count_and_are_all_stored() {
    let mut r = Registry::new();
    create(&mut r, "alice", "wf", "w", "{}", 1000).unwrap();
    let ids = ["run1", "run2", "run3"];
    for (n, id) in ids.iter().enumerate() {
        let res = r.execute_workflow(
            ExecuteWorkflow { workflow: key("alice", "wf"), executor: b("bob") },
            b(id),
            b("{\"n\":1}"),
            n % 2 == 0,
            2000 + n as i64,
        );
        assert_eq!(res, Ok(()));
    }
    let w = r.get_workflow(&b("alice"), &b("wf")).unwrap();
    assert_eq!(w.execution_count, 3);
    assert_eq!(r.num_executions(), 3);
    for id in ids.iter() {
        let e = r.get_execution(&b("alice"), &b("wf"), &b(id)).unwrap();
        assert_eq!(e.workflow.owner, b("alice"));
        assert_eq!(e.workflow.workflow_id, b("wf"));
        assert_eq!(e.executor, b("bob"));
        assert_eq!(e.execution_id, b(id));
    }
}

#[test]
fn duplicate_execution_id_fails_and_count_unchanged() {
    let mut r = Registry::new();
    create(&mut r, "alice", "wf", "w", "{}", 1000).unwrap();
    r.execute_workflow(
        ExecuteWorkflow { workflow: key("alice", "wf"), executor: b("bob") },
        b("run1"),
        b("{}"),
        true,
        2000,
    )
    .unwrap();
    let res = r.execute_workflow(
        ExecuteWorkflow { workflow: key("alice", "wf"), executor: b("carol") },
        b("run1"),
        b("{}"),
        false,
        2100,
    );
    assert_eq!(res, Err(ForgeFlowError::AlreadyExists));
    assert_eq!(r.get_workflow(&b("alice"), &b("wf")).unwrap().execution_count, 1);
    assert_eq!(r.num_executions(), 1);
    // the stored record is the first one, unchanged
    let e = r.get_execution(&b("alice"), &b("wf"), &b("run1")).unwrap();
    assert_eq!(e.executor, b("bob"));
    assert!(e.success);
    assert_eq!(e.executed_at, 2000);
}

#[test]
fn same_execution_id_against_another_workflow_is_fine() {
    let mut r = Registry::new();
    create(&mut r, "alice", "wf1", "a", "{}", 1000).unwrap();
    create(&mut r, "alice", "wf2", "b", "{}", 1000).unwrap();
    r.execute_workflow(
        ExecuteWorkflow { workflow: key("alice", "wf1"), executor: b("bob") },
        b("run"),
        b("{}"),
        true,
        2000,
    )
    .unwrap();
    let res = r.execute_workflow(
        ExecuteWorkflow { workflow: key("alice", "wf2"), executor: b("bob") },
        b("run"),
        b("{}"),
        true,
        2000,
    );
    assert_eq!(res, Ok(()));
    assert_eq!(r.get_workflow(&b("alice"), &b("wf1")).unwrap().execution_count, 1);
    assert_eq!(r.get_workflow(&b("alice"), &b("wf2")).unwrap().execution_count, 1);
}

#[test]
fn execution_needs_no_ownership_and_ignores_is_active() {
    let mut r = Registry::new();
    create(&mut r, "alice", "wf", "w", "{}", 1000).unwrap();
    // deactivate the workflow
    r.toggle_workflow(UpdateWorkflow { workflow: key("alice", "wf"), owner: b("alice") })
        .unwrap();
    assert!(!r.get_workflow(&b("alice"), &b("wf")).unwrap().is_active);
    // an unrelated identity may still record an execution against it
    let res = r.execute_workflow(
        ExecuteWorkflow { workflow: key("alice", "wf"), executor: b("mallory") },
        b("run1"),
        b("{}"),
        false,
        2000,
    );
    assert_eq!(res, Ok(()));
    assert_eq!(r.get_workflow(&b("alice"), &b("wf")).unwrap().execution_count, 1);
}

#[test]
fn toggle_flips_flag_and_keeps_updated_at() {
    let mut r = Registry::new();
    create(&mut r, "alice", "wf", "w", "{}", 1000).unwrap();
    let res = r.toggle_workflow(UpdateWorkflow { workflow: key("alice", "wf"), owner: b("alice") });
    assert_eq!(res, Ok(()));
    let w = r.get_workflow(&b("alice"), &b("wf")).unwrap();
    assert!(!w.is_active);
    assert_eq!(w.updated_at, 1000);
    assert_eq!(w.created_at, 1000);
    assert_eq!(w.name, b("w"));
    // a second toggle flips it back
    r.toggle_workflow(UpdateWorkflow { workflow: key("alice", "wf"), owner: b("alice") })
        .unwrap();
    let w = r.get_workflow(&b("alice"), &b("wf")).unwrap();
    assert!(w.is_active);
    assert_eq!(w.updated_at, 1000);
}

#[test]
fn toggle_by_non_owner_fails_unauthorized() {
    let mut r = Registry::new();
    create(&mut r, "alice", "wf", "w", "{}", 1000).unwrap();
    let res = r.toggle_workflow(UpdateWorkflow { workflow: key("alice", "wf"), owner: b("bob") });
    assert_eq!(res, Err(ForgeFlowError::Unauthorized));
    assert!(r.get_workflow(&b("alice"), &b("wf")).unwrap().is_active);
}

#[test]
fn delete_removes_and_later_operations_fail_not_found() {
    let mut r = Registry::new();
    create(&mut r, "alice", "wf", "w", "{}", 1000).unwrap();
    let res = r.delete_workflow(DeleteWorkflow { workflow: key("alice", "wf"), owner: b("alice") });
    assert_eq!(res, Ok(()));
    assert!(r.get_workflow(&b("alice"), &b("wf")).is_none());
    assert_eq!(
        r.update_workflow(
            UpdateWorkflow { workflow: key("alice", "wf"), owner: b("alice") },
            b("n"),
            b("{}"),
            2000,
        ),
        Err(ForgeFlowError::NotFound)
    );
    assert_eq!(
        r.toggle_workflow(UpdateWorkflow { workflow: key("alice", "wf"), owner: b("alice") }),
        Err(ForgeFlowError::NotFound)
    );
    assert_eq!(
        r.execute_workflow(
            ExecuteWorkflow { workflow: key("alice", "wf"), executor: b("bob") },
            b("run"),
            b("{}"),
            true,
            2000,
        ),
        Err(ForgeFlowError::NotFound)
    );
    // the reclaimed location is not reusable
    assert_eq!(
        create(&mut r, "alice", "wf", "again", "{}", 3000),
        Err(ForgeFlowError::AlreadyExists)
    );
}

#[test]
fn delete_by_non_owner_fails_and_record_persists() {
    let mut r = Registry::new();
    create(&mut r, "alice", "wf", "w", "{}", 1000).unwrap();
    let res = r.delete_workflow(DeleteWorkflow { workflow: key("alice", "wf"), owner: b("bob") });
    assert_eq!(res, Err(ForgeFlowError::Unauthorized));
    let w = r.get_workflow(&b("alice"), &b("wf")).unwrap();
    assert_eq!(w.name, b("w"));
}

#[test]
fn operations_on_missing_workflow_fail_not_found() {
    let mut r = Registry::new();
    assert_eq!(
        r.update_workflow(
            UpdateWorkflow { workflow: key("alice", "wf"), owner: b("alice") },
            b("n"),
            b("{}"),
            1000,
        ),
        Err(ForgeFlowError::NotFound)
    );
    assert_eq!(
        r.toggle_workflow(UpdateWorkflow { workflow: key("alice", "wf"), owner: b("alice") }),
        Err(ForgeFlowError::NotFound)
    );
    assert_eq!(
        r.delete_workflow(DeleteWorkflow { workflow: key("alice", "wf"), owner: b("alice") }),
        Err(ForgeFlowError::NotFound)
    );
    assert_eq!(
        r.execute_workflow(
            ExecuteWorkflow { workflow: key("alice", "wf"), executor: b("bob") },
            b("run"),
            b("{}"),
            true,
            1000,
        ),
        Err(ForgeFlowError::NotFound)
    );
}

#[test]
fn full_lifecycle_scenario() {
    let mut r = Registry::new();
    // owner O registers "wf1"
    assert_eq!(
        r.create_workflow(
            CreateWorkflow { owner: b("O") },
            b("wf1"),
            b("Daily Report"),
            b("{}"),
            1000,
        ),
        Ok(())
    );
    let w = r.get_workflow(&b("O"), &b("wf1")).unwrap();
    assert_eq!(w.execution_count, 0);
    // executor E, distinct from O, records an execution
    assert_eq!(
        r.execute_workflow(
            ExecuteWorkflow { workflow: key("O", "wf1"), executor: b("E") },
            b("run1"),
            b("{\"ok\":true}"),
            true,
            1100,
        ),
        Ok(())
    );
    let w = r.get_workflow(&b("O"), &b("wf1")).unwrap();
    assert_eq!(w.execution_count, 1);
    let e = r.get_execution(&b("O"), &b("wf1"), &b("run1")).unwrap();
    assert_eq!(e.executor, b("E"));
    assert_eq!(e.result_json, b("{\"ok\":true}"));
    assert!(e.success);
    assert_eq!(e.executed_at, 1100);
    // O deactivates the workflow
    assert_eq!(
        r.toggle_workflow(UpdateWorkflow { workflow: key("O", "wf1"), owner: b("O") }),
        Ok(())
    );
    assert!(!r.get_workflow(&b("O"), &b("wf1")).unwrap().is_active);
    // O deletes it; later executions fail
    assert_eq!(
        r.delete_workflow(DeleteWorkflow { workflow: key("O", "wf1"), owner: b("O") }),
        Ok(())
    );
    assert_eq!(
        r.execute_workflow(
            ExecuteWorkflow { workflow: key("O", "wf1"), executor: b("E") },
            b("run2"),
            b("{}"),
            true,
            1300,
        ),
        Err(ForgeFlowError::NotFound)
    );
    // the execution history survives the deletion
    assert!(r.get_execution(&b("O"), &b("wf1"), &b("run1")).is_some());
    assert_eq!(r.num_executions(), 1);
    assert_eq!(r.num_workflows(), 0);
}
