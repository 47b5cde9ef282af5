//! The decisions of a session: how a statement is to be run.

use vstd::prelude::*;

verus! {

/// The options of one execution.
#[derive(Debug, Clone, Copy, PartialEq, Eq, Structural)]
pub struct QueryOptions {
    pub prepare: Option<bool>,
}

/// What the host handed in as the statement.
#[derive(Debug, Clone, Copy, PartialEq, Eq, Structural)]
pub enum StatementKind {
    /// The text of a statement.
    Text,
    /// A query object.
    Query,
    /// A statement that was prepared before.
    Prepared,
}

/// How a statement is run.
#[derive(Debug, Clone, Copy, PartialEq, Eq, Structural)]
pub enum ExecutionPlan {
    /// The text is prepared first, and what comes of it is executed.
    PrepareThenExecute,
    /// The statement is sent as it is.
    ExecuteUnprepared,
    /// The prepared statement is executed.
    ExecutePrepared,
}

/// Whether the options ask for preparation: only where they are given
/// and say so.
pub open spec fn wants_prepare(options: Option<QueryOptions>) -> bool {
    options matches Some(o) && o.prepare == Some(true)
}

/// The plan for a statement of the kind `kind` under `options`: only
/// the text of a statement is ever prepared on the way.
pub open spec fn plan_spec(kind: StatementKind, options: Option<QueryOptions>) -> ExecutionPlan {
    match kind {
        StatementKind::Text => if wants_prepare(options) {
            ExecutionPlan::PrepareThenExecute
        } else {
            ExecutionPlan::ExecuteUnprepared
        },
        StatementKind::Query => ExecutionPlan::ExecuteUnprepared,
        StatementKind::Prepared => ExecutionPlan::ExecutePrepared,
    }
}

/// Whether the options ask for preparation.
pub fn should_prepare(options: Option<QueryOptions>) -> (r: bool)
    ensures
        r == wants_prepare(options),
{
    match options {
        Some(o) => match o.prepare {
            Some(p) => p,
            None => false,
        },
        None => false,
    }
}

/// Decides how a statement is run.
pub fn plan(kind: StatementKind, options: Option<QueryOptions>) -> (r: ExecutionPlan)
    ensures
        r == plan_spec(kind, options),
{
    match kind {
        StatementKind::Text => if should_prepare(options) {
            ExecutionPlan::PrepareThenExecute
        } else {
            ExecutionPlan::ExecuteUnprepared
        },
        StatementKind::Query => ExecutionPlan::ExecuteUnprepared,
        StatementKind::Prepared => ExecutionPlan::ExecutePrepared,
    }
}

} // verus!
