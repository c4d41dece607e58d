//! The dyadic GreaterThan verb: a boolean-as-int comparison, broadcast over
//! an array on the left.

use vstd::prelude::*;
use crate::structures::{group_val_lemmas, res_view, EvalError, ExecuteOutput, Numeric, Val};

verus! {

/// The Int(1)/Int(0) flag for a scalar comparison.
pub open spec fn gt_flag(x: Numeric, y: Numeric) -> Val {
    if x.spec_gt(y) {
        Val::Numeric(Numeric::Int(1))
    } else {
        Val::Numeric(Numeric::Int(0))
    }
}

/// Semantics of GreaterThan: an array on the left compares elementwise with
/// a scalar on the right, two scalars compare directly; nothing else is
/// defined.
pub open spec fn gt_vals(lhs: Val, rhs: Val) -> Result<Val, EvalError> {
    match (lhs, rhs) {
        (Val::Array(a), Val::Numeric(n)) => match gt_scalar_seq(a, n) {
            Ok(s) => Ok(Val::Array(s)),
            Err(e) => Err(e),
        },
        (Val::Numeric(x), Val::Numeric(y)) => Ok(gt_flag(x, y)),
        _ => Err(EvalError::UnsupportedOperands),
    }
}

/// GreaterThan of one value against the scalar `n`: a number compares
/// directly, an array compares elementwise, anything else is unsupported.
pub open spec fn gt_scalar(v: Val, n: Numeric) -> Result<Val, EvalError>
    decreases v,
{
    match v {
        Val::Numeric(x) => Ok(gt_flag(x, n)),
        Val::Array(s) => match gt_scalar_seq(s, n) {
            Ok(r) => Ok(Val::Array(r)),
            Err(e) => Err(e),
        },
        _ => Err(EvalError::UnsupportedOperands),
    }
}

/// [`gt_scalar`] over every element of a sequence.
pub open spec fn gt_scalar_seq(s: Seq<Val>, n: Numeric) -> Result<Seq<Val>, EvalError>
    decreases s,
{
    if s.len() == 0 {
        Ok(Seq::empty())
    } else {
        match gt_scalar_seq(s.drop_last(), n) {
            Err(e) => Err(e),
            Ok(init) => match gt_scalar(s.last(), n) {
                Err(e) => Err(e),
                Ok(v) => Ok(init.push(v)),
            },
        }
    }
}

/// Once a prefix of a broadcast comparison fails, the whole fails the same
/// way.
proof fn lemma_gt_scalar_seq_err_extend(s: Seq<Val>, n: Numeric, i: int)
    requires
        0 <= i <= s.len(),
        gt_scalar_seq(s.take(i), n) is Err,
    ensures
        gt_scalar_seq(s, n) == gt_scalar_seq(s.take(i), n),
    decreases s.len() - i,
{
    if i == s.len() {
        assert(s.take(i) =~= s);
    } else {
        assert(s.take(i + 1).drop_last() =~= s.take(i));
        lemma_gt_scalar_seq_err_extend(s, n, i + 1);
    }
}

/// Compare two values under the rules of [`gt_vals`].
pub fn execute_greaterthan(lhs: &ExecuteOutput, rhs: &ExecuteOutput) -> (r: Result<
    ExecuteOutput,
    EvalError,
>)
    ensures
        res_view(r) == gt_vals(lhs@, rhs@),
{
    match (lhs, rhs) {
        (ExecuteOutput::Array(a), ExecuteOutput::Numeric(n)) => execute_array_greaterthan_numeric(
            a,
            *n,
        ),
        (ExecuteOutput::Numeric(x), ExecuteOutput::Numeric(y)) => Ok(
            execute_numeric_greaterthan_numeric(*x, *y),
        ),
        _ => Err(EvalError::UnsupportedOperands),
    }
}

/// The Int(1)/Int(0) outcome of one scalar comparison.
pub fn execute_numeric_greaterthan_numeric(lhs_numeric: Numeric, rhs_numeric: Numeric) -> (r:
    ExecuteOutput)
    ensures
        r@ == gt_flag(lhs_numeric, rhs_numeric),
{
    if lhs_numeric.gt(rhs_numeric) {
        ExecuteOutput::Numeric(Numeric::Int(1))
    } else {
        ExecuteOutput::Numeric(Numeric::Int(0))
    }
}

/// GreaterThan of one value against a scalar, as [`gt_scalar`] says.
#[verifier::loop_isolation(false)]
fn execute_greaterthan_scalar(v: &ExecuteOutput, n: Numeric) -> (r: Result<
    ExecuteOutput,
    EvalError,
>)
    ensures
        res_view(r) == gt_scalar(v@, n),
    decreases *v,
{
    broadcast use group_val_lemmas;

    match v {
        ExecuteOutput::Numeric(x) => Ok(execute_numeric_greaterthan_numeric(*x, n)),
        ExecuteOutput::Array(arr) => {
            let ghost vs = ExecuteOutput::seq_val(arr@);
            let mut output: Vec<ExecuteOutput> = Vec::new();
            let mut i: usize = 0;
            proof {
                assert(vs.take(0) =~= Seq::<Val>::empty());
            }
            while i < arr.len()
                invariant
                    0 <= i <= arr.len(),
                    gt_scalar_seq(vs.take(i as int), n) == Ok::<_, EvalError>(
                        ExecuteOutput::seq_val(output@),
                    ),
                decreases arr.len() - i,
            {
                proof {
                    assert(*v == ExecuteOutput::Array(*arr));
                    assert(decreases_to!(ExecuteOutput::Array(*arr) => *arr));
                    assert(decreases_to!(*arr => arr@));
                }
                let e = execute_greaterthan_scalar(&arr[i], n);
                proof {
                    assert(vs.take(i + 1).drop_last() =~= vs.take(i as int));
                    assert(vs.take(i + 1).last() == vs[i as int]);
                }
                match e {
                    Ok(w) => {
                        proof {
                            assert(output@.push(w).drop_last() =~= output@);
                        }
                        output.push(w);
                    },
                    Err(err) => {
                        proof {
                            lemma_gt_scalar_seq_err_extend(vs, n, i + 1);
                        }
                        return Err(err);
                    },
                }
                i = i + 1;
            }
            proof {
                assert(vs.take(i as int) =~= vs);
            }
            Ok(ExecuteOutput::Array(output))
        },
        _ => Err(EvalError::UnsupportedOperands),
    }
}

/// GreaterThan with the scalar compared against every element of an array.
fn execute_array_greaterthan_numeric(lhs_array: &Vec<ExecuteOutput>, rhs_numeric: Numeric) -> (r:
    Result<ExecuteOutput, EvalError>)
    ensures
        res_view(r) == gt_vals(
            Val::Array(ExecuteOutput::seq_val(lhs_array@)),
            Val::Numeric(rhs_numeric),
        ),
{
    broadcast use group_val_lemmas;

    match execute_greaterthan_scalar_vec(lhs_array, rhs_numeric) {
        Ok(output) => Ok(ExecuteOutput::Array(output)),
        Err(e) => Err(e),
    }
}

/// [`execute_greaterthan_scalar`] over every element of a vector.
#[verifier::loop_isolation(false)]
fn execute_greaterthan_scalar_vec(arr: &Vec<ExecuteOutput>, n: Numeric) -> (r: Result<
    Vec<ExecuteOutput>,
    EvalError,
>)
    ensures
        match r {
            Ok(output) => gt_scalar_seq(ExecuteOutput::seq_val(arr@), n) == Ok::<_, EvalError>(
                ExecuteOutput::seq_val(output@),
            ),
            Err(e) => gt_scalar_seq(ExecuteOutput::seq_val(arr@), n) == Err::<Seq<Val>, _>(e),
        },
{
    broadcast use group_val_lemmas;

    let ghost vs = ExecuteOutput::seq_val(arr@);
    let mut output: Vec<ExecuteOutput> = Vec::new();
    let mut i: usize = 0;
    proof {
        assert(vs.take(0) =~= Seq::<Val>::empty());
    }
    while i < arr.len()
        invariant
            0 <= i <= arr.len(),
            gt_scalar_seq(vs.take(i as int), n) == Ok::<_, EvalError>(
                ExecuteOutput::seq_val(output@),
            ),
        decreases arr.len() - i,
    {
        let e = execute_greaterthan_scalar(&arr[i], n);
        proof {
            assert(vs.take(i + 1).drop_last() =~= vs.take(i as int));
            assert(vs.take(i + 1).last() == vs[i as int]);
        }
        match e {
            Ok(w) => {
                proof {
                    assert(output@.push(w).drop_last() =~= output@);
                }
                output.push(w);
            },
            Err(err) => {
                proof {
                    lemma_gt_scalar_seq_err_extend(vs, n, i + 1);
                }
                return Err(err);
            },
        }
        i = i + 1;
    }
    proof {
        assert(vs.take(i as int) =~= vs);
    }
    Ok(output)
}

} // verus!
