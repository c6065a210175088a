//! Whether a logical plan can produce no row at all, judged from its shape.
use vstd::prelude::*;

verus! {

/// A logical plan, as far as the emptiness check reads it.
#[derive(Debug)]
pub enum LogicalPlan {
    /// A relation without input, producing one row or none.
    EmptyRelation { produce_one_row: bool },
    Projection(Box<LogicalPlan>),
    SubqueryAlias(Box<LogicalPlan>),
    /// A filter, with whether its predicate is the literal `false`.
    Filter { predicate_is_false: bool, input: Box<LogicalPlan> },
    /// Any other plan.
    Other,
}

/// A plan is effectively empty when it is an empty relation that produces no row, a
/// filter on the literal `false`, or a projection, alias or filter of an effectively empty
/// plan.
pub open spec fn effectively_empty(p: LogicalPlan) -> bool
    decreases p,
{
    match p {
        LogicalPlan::EmptyRelation { produce_one_row } => !produce_one_row,
        LogicalPlan::Projection(input) => effectively_empty(*input),
        LogicalPlan::SubqueryAlias(input) => effectively_empty(*input),
        LogicalPlan::Filter { predicate_is_false, input } => predicate_is_false || effectively_empty(*input),
        LogicalPlan::Other => false,
    }
}

/// Whether a plan is effectively empty.
pub fn is_logical_plan_effectively_empty(plan: &LogicalPlan) -> (r: bool)
    ensures
        r == effectively_empty(*plan),
    decreases plan,
{
    match plan {
        LogicalPlan::EmptyRelation { produce_one_row } => !*produce_one_row,
        LogicalPlan::Projection(input) => is_logical_plan_effectively_empty(input),
        LogicalPlan::SubqueryAlias(input) => is_logical_plan_effectively_empty(input),
        LogicalPlan::Filter { predicate_is_false, input } => *predicate_is_false || is_logical_plan_effectively_empty(input),
        LogicalPlan::Other => false,
    }
}

} // verus!
