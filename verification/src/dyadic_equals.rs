//! The dyadic Equals verb: a boolean-as-int equality over scalars, flat
//! arrays of scalars, and dictionary values against a scalar.

use vstd::prelude::*;
use crate::structures::{group_val_lemmas, res_view, EvalError, ExecuteOutput, Numeric, Val};

verus! {

/// Whether every element of the sequence is a scalar number.
pub open spec fn seq_all_numeric(s: Seq<Val>) -> bool {
    forall|i: int| 0 <= i < s.len() ==> s[i] is Numeric
}

/// Whether every value of the dictionary is a scalar number.
pub open spec fn entries_all_numeric(es: Seq<(Seq<char>, Val)>) -> bool {
    forall|i: int| 0 <= i < es.len() ==> es[i].1 is Numeric
}

/// The Int(1)/Int(0) flag for a scalar equality.
pub open spec fn eq_flag(x: Numeric, y: Numeric) -> Val {
    if x.spec_equals(y) {
        Val::Numeric(Numeric::Int(1))
    } else {
        Val::Numeric(Numeric::Int(0))
    }
}

/// Semantics of Equals.
///
/// Equality is flat: array operands must hold scalars only, and a scalar
/// compares against every element of an array, or every value of a
/// dictionary, from either side.  Two arrays compare elementwise after the
/// scalar check on both; their lengths must then agree.
pub open spec fn equals_vals(lhs: Val, rhs: Val) -> Result<Val, EvalError> {
    match (lhs, rhs) {
        (Val::Array(a), Val::Array(b)) => {
            if !seq_all_numeric(a) || !seq_all_numeric(b) {
                Err(EvalError::TypeMismatch)
            } else if a.len() != b.len() {
                Err(EvalError::ShapeMismatch)
            } else {
                Ok(Val::Array(Seq::new(a.len(), |i: int| eq_flag(a[i]->Numeric_0, b[i]->Numeric_0))))
            }
        },
        (Val::Array(a), Val::Numeric(n)) => equals_seq_scalar(a, n),
        (Val::Numeric(n), Val::Array(a)) => equals_seq_scalar(a, n),
        (Val::Dictionary(es), Val::Numeric(n)) => equals_entries_scalar(es, n),
        (Val::Numeric(n), Val::Dictionary(es)) => equals_entries_scalar(es, n),
        (Val::Numeric(x), Val::Numeric(y)) => Ok(eq_flag(x, y)),
        _ => Err(EvalError::UnsupportedOperands),
    }
}

/// Equals of every element of a scalar array against one scalar.
pub open spec fn equals_seq_scalar(a: Seq<Val>, n: Numeric) -> Result<Val, EvalError> {
    if !seq_all_numeric(a) {
        Err(EvalError::TypeMismatch)
    } else {
        Ok(Val::Array(Seq::new(a.len(), |i: int| eq_flag(a[i]->Numeric_0, n))))
    }
}

/// Equals of every value of a dictionary against one scalar, keys kept.
pub open spec fn equals_entries_scalar(es: Seq<(Seq<char>, Val)>, n: Numeric) -> Result<
    Val,
    EvalError,
> {
    if !entries_all_numeric(es) {
        Err(EvalError::TypeMismatch)
    } else {
        Ok(
            Val::Dictionary(
                Seq::new(es.len(), |i: int| (es[i].0, eq_flag(es[i].1->Numeric_0, n))),
            ),
        )
    }
}

/// Compare two values under the rules of [`equals_vals`].
pub fn execute_equals(lhs: &ExecuteOutput, rhs: &ExecuteOutput) -> (r: Result<
    ExecuteOutput,
    EvalError,
>)
    ensures
        res_view(r) == equals_vals(lhs@, rhs@),
{
    match (lhs, rhs) {
        (ExecuteOutput::Array(a), ExecuteOutput::Array(b)) => execute_equals_arrays(a, b),
        (ExecuteOutput::Array(a), ExecuteOutput::Numeric(n)) => execute_equals_array_and_numeric(
            a,
            *n,
        ),
        (ExecuteOutput::Numeric(n), ExecuteOutput::Array(a)) => execute_equals_array_and_numeric(
            a,
            *n,
        ),
        (ExecuteOutput::Dictionary(es), ExecuteOutput::Numeric(n)) => execute_equals_dict_and_numeric(
            es,
            *n,
        ),
        (ExecuteOutput::Numeric(n), ExecuteOutput::Dictionary(es)) => execute_equals_dict_and_numeric(
            es,
            *n,
        ),
        (ExecuteOutput::Numeric(x), ExecuteOutput::Numeric(y)) => Ok(execute_equals_numerics(
            *x,
            *y,
        )),
        _ => Err(EvalError::UnsupportedOperands),
    }
}

/// The Int(1)/Int(0) outcome of one scalar equality.
pub fn execute_equals_numerics(lhs_numeric: Numeric, rhs_numeric: Numeric) -> (r: ExecuteOutput)
    ensures
        r@ == eq_flag(lhs_numeric, rhs_numeric),
{
    if lhs_numeric.equals(rhs_numeric) {
        ExecuteOutput::Numeric(Numeric::Int(1))
    } else {
        ExecuteOutput::Numeric(Numeric::Int(0))
    }
}

/// The scalars of an array that must hold scalars only.
#[verifier::loop_isolation(false)]
fn collect_numerics(arr: &Vec<ExecuteOutput>) -> (r: Result<Vec<Numeric>, EvalError>)
    ensures
        match r {
            Ok(nums) => seq_all_numeric(ExecuteOutput::seq_val(arr@)) && nums@.len() == arr@.len()
                && forall|i: int|
                0 <= i < arr@.len() ==> ExecuteOutput::seq_val(arr@)[i] == Val::Numeric(nums@[i]),
            Err(e) => e == EvalError::TypeMismatch && !seq_all_numeric(
                ExecuteOutput::seq_val(arr@),
            ),
        },
{
    broadcast use group_val_lemmas;

    let ghost vs = ExecuteOutput::seq_val(arr@);
    let mut nums: Vec<Numeric> = Vec::new();
    let mut i: usize = 0;
    while i < arr.len()
        invariant
            0 <= i <= arr.len(),
            nums@.len() == i,
            forall|j: int| 0 <= j < i ==> vs[j] == Val::Numeric(nums@[j]),
        decreases arr.len() - i,
    {
        match &arr[i] {
            ExecuteOutput::Numeric(x) => {
                nums.push(*x);
            },
            _ => {
                proof {
                    assert(!(vs[i as int] is Numeric));
                }
                return Err(EvalError::TypeMismatch);
            },
        }
        i = i + 1;
    }
    Ok(nums)
}

/// Elementwise Equals of two arrays of scalars.
#[verifier::loop_isolation(false)]
fn execute_equals_arrays(lhs_array: &Vec<ExecuteOutput>, rhs_array: &Vec<ExecuteOutput>) -> (r:
    Result<ExecuteOutput, EvalError>)
    ensures
        res_view(r) == equals_vals(
            Val::Array(ExecuteOutput::seq_val(lhs_array@)),
            Val::Array(ExecuteOutput::seq_val(rhs_array@)),
        ),
{
    broadcast use group_val_lemmas;

    let ghost va = ExecuteOutput::seq_val(lhs_array@);
    let ghost vb = ExecuteOutput::seq_val(rhs_array@);
    let lhs_numerics = match collect_numerics(lhs_array) {
        Ok(nums) => nums,
        Err(e) => {
            return Err(e);
        },
    };
    let rhs_numerics = match collect_numerics(rhs_array) {
        Ok(nums) => nums,
        Err(e) => {
            return Err(e);
        },
    };
    if lhs_numerics.len() != rhs_numerics.len() {
        return Err(EvalError::ShapeMismatch);
    }
    let mut output: Vec<ExecuteOutput> = Vec::new();
    let mut i: usize = 0;
    while i < lhs_numerics.len()
        invariant
            0 <= i <= lhs_numerics.len(),
            output@.len() == i,
            forall|j: int|
                0 <= j < i ==> output@[j].as_val() == eq_flag(va[j]->Numeric_0, vb[j]->Numeric_0),
        decreases lhs_numerics.len() - i,
    {
        let flag = execute_equals_numerics(lhs_numerics[i], rhs_numerics[i]);
        output.push(flag);
        i = i + 1;
    }
    proof {
        assert(ExecuteOutput::seq_val(output@) =~= Seq::new(
            va.len(),
            |j: int| eq_flag(va[j]->Numeric_0, vb[j]->Numeric_0),
        ));
    }
    Ok(ExecuteOutput::Array(output))
}

/// Equals of every element of a scalar array against one scalar; the scalar
/// may stand on either side.
#[verifier::loop_isolation(false)]
fn execute_equals_array_and_numeric(array: &Vec<ExecuteOutput>, numeric: Numeric) -> (r: Result<
    ExecuteOutput,
    EvalError,
>)
    ensures
        res_view(r) == equals_seq_scalar(ExecuteOutput::seq_val(array@), numeric),
{
    broadcast use group_val_lemmas;

    let ghost vs = ExecuteOutput::seq_val(array@);
    let array_numerics = match collect_numerics(array) {
        Ok(nums) => nums,
        Err(e) => {
            return Err(e);
        },
    };
    let mut output: Vec<ExecuteOutput> = Vec::new();
    let mut i: usize = 0;
    while i < array_numerics.len()
        invariant
            0 <= i <= array_numerics.len(),
            output@.len() == i,
            forall|j: int|
                0 <= j < i ==> output@[j].as_val() == eq_flag(vs[j]->Numeric_0, numeric),
        decreases array_numerics.len() - i,
    {
        let flag = execute_equals_numerics(array_numerics[i], numeric);
        output.push(flag);
        i = i + 1;
    }
    proof {
        assert(ExecuteOutput::seq_val(output@) =~= Seq::new(
            vs.len(),
            |j: int| eq_flag(vs[j]->Numeric_0, numeric),
        ));
    }
    Ok(ExecuteOutput::Array(output))
}

/// Equals of every value of a dictionary against one scalar, keys kept; the
/// scalar may stand on either side.
#[verifier::loop_isolation(false)]
fn execute_equals_dict_and_numeric(entries: &Vec<(String, ExecuteOutput)>, numeric: Numeric) -> (r:
    Result<ExecuteOutput, EvalError>)
    ensures
        res_view(r) == equals_entries_scalar(ExecuteOutput::entries_val(entries@), numeric),
{
    broadcast use group_val_lemmas;

    let ghost ves = ExecuteOutput::entries_val(entries@);
    let mut output: Vec<(String, ExecuteOutput)> = Vec::new();
    let mut i: usize = 0;
    while i < entries.len()
        invariant
            0 <= i <= entries.len(),
            output@.len() == i,
            forall|j: int| 0 <= j < i ==> ves[j].1 is Numeric,
            forall|j: int|
                0 <= j < i ==> output@[j].0@ == ves[j].0 && output@[j].1.as_val() == eq_flag(
                    ves[j].1->Numeric_0,
                    numeric,
                ),
        decreases entries.len() - i,
    {
        let key = entries[i].0.clone();
        match &entries[i].1 {
            ExecuteOutput::Numeric(x) => {
                let flag = execute_equals_numerics(*x, numeric);
                output.push((key, flag));
            },
            _ => {
                proof {
                    assert(!(ves[i as int].1 is Numeric));
                }
                return Err(EvalError::TypeMismatch);
            },
        }
        i = i + 1;
    }
    proof {
        assert(ExecuteOutput::entries_val(output@) =~= Seq::new(
            ves.len(),
            |j: int| (ves[j].0, eq_flag(ves[j].1->Numeric_0, numeric)),
        ));
    }
    Ok(ExecuteOutput::Dictionary(output))
}

} // verus!
