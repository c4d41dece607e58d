//! The monadic verbs: Print, Generate (iota) and Shape.

use vstd::prelude::*;
use crate::parse_structures::MonadicVerb;
use crate::structures::{res_view, EvalError, ExecuteOutput, Numeric, Val};

verus! {

/// The array `[Int(0) .. Int(n-1)]`; empty for `n <= 0` — a negative
/// Generate operand deliberately yields the empty array, like zero.
pub open spec fn iota_seq(n: i64) -> Seq<Val> {
    if n <= 0 {
        Seq::empty()
    } else {
        Seq::new(n as nat, |i: int| Val::Numeric(Numeric::Int(i as i64)))
    }
}

/// Semantics of one monadic application.
///
/// Print never fails on operand shape and returns Null; handing the operand
/// to the observation channel is the evaluator's business, not part of the
/// verb's value.  Generate wants an Int scalar.  Shape wants an array and
/// returns its length as an Int; the shape of a dictionary or scalar is
/// deliberately undefined.  (An array longer than an Int can count cannot
/// exist on a real machine; such a length is refused like a non-array.)
pub open spec fn monadic_vals(verb: MonadicVerb, v: Val) -> Result<Val, EvalError> {
    match verb {
        MonadicVerb::Print => Ok(Val::Null),
        MonadicVerb::Generate => match v {
            Val::Numeric(Numeric::Int(n)) => Ok(Val::Array(iota_seq(n))),
            _ => Err(EvalError::UnsupportedOperands),
        },
        MonadicVerb::Shape => match v {
            Val::Array(s) => {
                if s.len() <= i64::MAX {
                    Ok(Val::Numeric(Numeric::Int(s.len() as i64)))
                } else {
                    Err(EvalError::UnsupportedOperands)
                }
            },
            _ => Err(EvalError::UnsupportedOperands),
        },
    }
}

/// Apply one monadic verb to an evaluated operand.
pub fn execute_monadic_op(verb: MonadicVerb, rhs: ExecuteOutput) -> (r: Result<
    ExecuteOutput,
    EvalError,
>)
    ensures
        res_view(r) == monadic_vals(verb, rhs@),
{
    match verb {
        MonadicVerb::Print => Ok(ExecuteOutput::Null),
        MonadicVerb::Generate => match rhs {
            ExecuteOutput::Numeric(Numeric::Int(n)) => Ok(execute_generate(n)),
            _ => Err(EvalError::UnsupportedOperands),
        },
        MonadicVerb::Shape => match rhs {
            ExecuteOutput::Array(arr) => {
                proof {
                    crate::structures::lemma_seq_val_index(arr@);
                }
                if arr.len() as u64 <= i64::MAX as u64 {
                    Ok(ExecuteOutput::Numeric(Numeric::Int(arr.len() as i64)))
                } else {
                    Err(EvalError::UnsupportedOperands)
                }
            },
            _ => Err(EvalError::UnsupportedOperands),
        },
    }
}

/// The array `[Int(0) .. Int(n-1)]`, empty for a non-positive `n`.
#[verifier::loop_isolation(false)]
fn execute_generate(size: i64) -> (r: ExecuteOutput)
    ensures
        r@ == Val::Array(iota_seq(size)),
{
    broadcast use crate::structures::group_val_lemmas;

    let mut generated: Vec<ExecuteOutput> = Vec::new();
    let mut i: i64 = 0;
    while i < size
        invariant
            0 <= i,
            size > 0 ==> i <= size,
            size <= 0 ==> i == 0,
            generated@.len() == i,
            forall|j: int|
                0 <= j < i ==> generated@[j].as_val() == Val::Numeric(Numeric::Int(j as i64)),
        decreases size - i,
    {
        generated.push(ExecuteOutput::Numeric(Numeric::Int(i)));
        i = i + 1;
    }
    proof {
        assert(ExecuteOutput::seq_val(generated@) =~= iota_seq(size));
    }
    ExecuteOutput::Array(generated)
}

} // verus!
