//! Dispatch over the dyadic verbs.

use vstd::prelude::*;
use crate::dyadic_access::{access_vals, execute_access};
use crate::dyadic_add::{add_vals, execute_add};
use crate::dyadic_divide::{divide_vals, execute_divide};
use crate::dyadic_equals::{equals_vals, execute_equals};
use crate::dyadic_greaterthan::{execute_greaterthan, gt_vals};
use crate::dyadic_multiply::{execute_multiply, multiply_vals};
use crate::dyadic_replicate::{execute_replicate, replicate_vals};
use crate::parse_structures::DyadicVerb;
use crate::structures::{res_view, EvalError, ExecuteOutput, Val};

verus! {

/// Semantics of one dyadic application.
///
/// Subtract is parseable but has no defined evaluation semantics here; it is
/// rejected as not implemented rather than given an ad-hoc meaning.
pub open spec fn dyadic_vals(verb: DyadicVerb, lhs: Val, rhs: Val) -> Result<Val, EvalError> {
    match verb {
        DyadicVerb::Add => add_vals(lhs, rhs),
        DyadicVerb::Subtract => Err(EvalError::OperatorNotImplemented),
        DyadicVerb::Divide => divide_vals(lhs, rhs),
        DyadicVerb::Multiply => multiply_vals(lhs, rhs),
        DyadicVerb::Replicate => replicate_vals(lhs, rhs),
        DyadicVerb::GreaterThan => gt_vals(lhs, rhs),
        DyadicVerb::Access => access_vals(lhs, rhs),
        DyadicVerb::Equals => equals_vals(lhs, rhs),
    }
}

/// Apply one dyadic verb to two evaluated operands.
pub fn execute_dyadic_op(verb: DyadicVerb, lhs: ExecuteOutput, rhs: ExecuteOutput) -> (r: Result<
    ExecuteOutput,
    EvalError,
>)
    ensures
        res_view(r) == dyadic_vals(verb, lhs@, rhs@),
{
    match verb {
        DyadicVerb::Add => execute_add(&lhs, &rhs),
        DyadicVerb::Subtract => Err(EvalError::OperatorNotImplemented),
        DyadicVerb::Divide => execute_divide(&lhs, &rhs),
        DyadicVerb::Multiply => execute_multiply(&lhs, &rhs),
        DyadicVerb::Replicate => execute_replicate(&lhs, &rhs),
        DyadicVerb::GreaterThan => execute_greaterthan(&lhs, &rhs),
        DyadicVerb::Access => execute_access(&lhs, &rhs),
        DyadicVerb::Equals => execute_equals(&lhs, &rhs),
    }
}

} // verus!
