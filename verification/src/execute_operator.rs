//! Dispatch over the operator verbs.

use vstd::prelude::*;
use crate::operator_reduce::{execute_reduce_dyadic_lhs, reduce_vals};
use crate::parse_structures::{DyadicVerb, OperatorVerb};
use crate::structures::{res_view, EvalError, ExecuteOutput, Val};

verus! {

/// Semantics of one operator application: the operator takes the dyadic verb
/// on its left and the evaluated operand on its right.
pub open spec fn operator_vals(
    lhs_verb: DyadicVerb,
    operator_verb: OperatorVerb,
    v: Val,
) -> Result<Val, EvalError> {
    match operator_verb {
        OperatorVerb::Reduce => reduce_vals(lhs_verb, v),
    }
}

/// Apply one operator verb.
pub fn execute_operator_op(
    lhs_verb: DyadicVerb,
    operator_verb: OperatorVerb,
    rhs: ExecuteOutput,
) -> (r: Result<ExecuteOutput, EvalError>)
    ensures
        res_view(r) == operator_vals(lhs_verb, operator_verb, rhs@),
{
    match operator_verb {
        OperatorVerb::Reduce => execute_reduce_dyadic_lhs(lhs_verb, rhs),
    }
}

} // verus!
