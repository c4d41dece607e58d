//! The dyadic Replicate verb: the left array gives a multiplicity for each
//! element of the right array, and the output is the flat concatenation of
//! the repeated elements, in order.

use vstd::prelude::*;
use crate::structures::{deep_copy, group_val_lemmas, res_view, EvalError, ExecuteOutput, Numeric, Val};

verus! {

/// Whether every element of the sequence is an Int scalar.
pub open spec fn seq_all_int(s: Seq<Val>) -> bool {
    forall|i: int| 0 <= i < s.len() ==> (#[trigger] s[i]) matches Val::Numeric(Numeric::Int(_))
}

/// The integer under an Int scalar.
pub open spec fn int_of(v: Val) -> i64 {
    v->Numeric_0->Int_0
}

/// `v` repeated `m` times (none for `m <= 0`).
pub open spec fn repeat_val(v: Val, m: int) -> Seq<Val>
    decreases m,
{
    if m <= 0 {
        Seq::empty()
    } else {
        repeat_val(v, m - 1).push(v)
    }
}

/// The flat concatenation Replicate builds: element `i` of `b` repeated as
/// often as element `i` of `a` says.
pub open spec fn replicate_elems(a: Seq<Val>, b: Seq<Val>) -> Seq<Val>
    recommends
        a.len() == b.len(),
    decreases a, b,
{
    if a.len() == 0 {
        Seq::empty()
    } else {
        replicate_elems(a.drop_last(), b.drop_last()) + repeat_val(b.last(), int_of(a.last()) as int)
    }
}

/// Semantics of Replicate: defined on a pair of arrays of one length whose
/// left side holds non-negative Int scalars only; the output is flat.
pub open spec fn replicate_vals(lhs: Val, rhs: Val) -> Result<Val, EvalError> {
    match (lhs, rhs) {
        (Val::Array(a), Val::Array(b)) => {
            if a.len() != b.len() {
                Err(EvalError::ShapeMismatch)
            } else if !seq_all_int(a) {
                Err(EvalError::TypeMismatch)
            } else if exists|i: int| 0 <= i < a.len() && int_of(a[i]) < 0 {
                Err(EvalError::InvalidMultiplicity)
            } else {
                Ok(Val::Array(replicate_elems(a, b)))
            }
        },
        _ => Err(EvalError::UnsupportedOperands),
    }
}

/// Replicate two values under the rules of [`replicate_vals`].
pub fn execute_replicate(lhs: &ExecuteOutput, rhs: &ExecuteOutput) -> (r: Result<
    ExecuteOutput,
    EvalError,
>)
    ensures
        res_view(r) == replicate_vals(lhs@, rhs@),
{
    match (lhs, rhs) {
        (ExecuteOutput::Array(a), ExecuteOutput::Array(b)) => execute_replicate_arrays(a, b),
        _ => Err(EvalError::UnsupportedOperands),
    }
}

/// Replicate over a pair of arrays: multiplicities on the left, elements on
/// the right.
#[verifier::loop_isolation(false)]
fn execute_replicate_arrays(lhs_array: &Vec<ExecuteOutput>, rhs_array: &Vec<ExecuteOutput>) -> (r:
    Result<ExecuteOutput, EvalError>)
    ensures
        res_view(r) == replicate_vals(
            Val::Array(ExecuteOutput::seq_val(lhs_array@)),
            Val::Array(ExecuteOutput::seq_val(rhs_array@)),
        ),
{
    broadcast use group_val_lemmas;

    let ghost va = ExecuteOutput::seq_val(lhs_array@);
    let ghost vb = ExecuteOutput::seq_val(rhs_array@);
    if lhs_array.len() != rhs_array.len() {
        return Err(EvalError::ShapeMismatch);
    }
    let mut multiplicities: Vec<i64> = Vec::new();
    let mut i: usize = 0;
    while i < lhs_array.len()
        invariant
            0 <= i <= lhs_array.len(),
            multiplicities@.len() == i,
            forall|j: int| 0 <= j < i ==> va[j] == Val::Numeric(Numeric::Int(multiplicities@[j])),
        decreases lhs_array.len() - i,
    {
        match &lhs_array[i] {
            ExecuteOutput::Numeric(Numeric::Int(x)) => {
                multiplicities.push(*x);
            },
            _ => {
                proof {
                    assert(!(va[i as int] matches Val::Numeric(Numeric::Int(_))));
                }
                return Err(EvalError::TypeMismatch);
            },
        }
        i = i + 1;
    }
    let mut i: usize = 0;
    while i < multiplicities.len()
        invariant
            0 <= i <= multiplicities.len(),
            forall|j: int| 0 <= j < i ==> multiplicities@[j] >= 0,
        decreases multiplicities.len() - i,
    {
        if multiplicities[i] < 0 {
            proof {
                assert(int_of(va[i as int]) < 0);
            }
            return Err(EvalError::InvalidMultiplicity);
        }
        i = i + 1;
    }
    let mut output: Vec<ExecuteOutput> = Vec::new();
    let mut i: usize = 0;
    proof {
        assert(va.take(0) =~= Seq::<Val>::empty());
        assert(vb.take(0) =~= Seq::<Val>::empty());
        assert(ExecuteOutput::seq_val(output@) =~= replicate_elems(va.take(0), vb.take(0)));
    }
    while i < multiplicities.len()
        invariant
            0 <= i <= multiplicities.len(),
            ExecuteOutput::seq_val(output@) == replicate_elems(va.take(i as int), vb.take(i as int)),
        decreases multiplicities.len() - i,
    {
        let m = multiplicities[i];
        let ghost before = ExecuteOutput::seq_val(output@);
        let mut k: i64 = 0;
        proof {
            assert(before + repeat_val(vb[i as int], 0) =~= before);
        }
        while k < m
            invariant
                0 <= k <= m,
                ExecuteOutput::seq_val(output@) == before + repeat_val(vb[i as int], k as int),
            decreases m - k,
        {
            let copy = deep_copy(&rhs_array[i]);
            proof {
                assert(output@.push(copy).drop_last() =~= output@);
                assert((before + repeat_val(vb[i as int], k as int)).push(vb[i as int]) =~= before
                    + repeat_val(vb[i as int], k + 1));
            }
            output.push(copy);
            k = k + 1;
        }
        proof {
            assert(va.take(i + 1).drop_last() =~= va.take(i as int));
            assert(vb.take(i + 1).drop_last() =~= vb.take(i as int));
            assert(va.take(i + 1).last() == va[i as int]);
            assert(vb.take(i + 1).last() == vb[i as int]);
        }
        i = i + 1;
    }
    proof {
        assert(va.take(i as int) =~= va);
        assert(vb.take(i as int) =~= vb);
    }
    Ok(ExecuteOutput::Array(output))
}

} // verus!
