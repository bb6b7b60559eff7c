//! An in-memory registry of user-owned workflow definitions and their
//! execution history.
//!
//! A `Workflow` record is owned by the identity that created it; only the
//! owner may update, toggle or delete it. Any identity may record an
//! `Execution` against an existing workflow. Records are addressed by
//! composite keys — `(owner, workflow_id)` for workflows and
//! `(workflow key, execution_id)` for executions — and every operation is
//! atomic: it either applies completely or leaves the registry unchanged.

pub mod laws;
pub mod model;
pub mod records;
pub mod registry;
