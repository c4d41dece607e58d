//! The dyadic Access verb: indexing and projection.
//!
//! An array indexed by an index array gathers elements in the requested
//! order, duplicates allowed; a single Int index yields the element itself,
//! unwrapped; a string against an array of dictionaries projects the named
//! key out of every element; a string against a dictionary looks the key up.

use vstd::prelude::*;
use crate::dyadic_replicate::{int_of, seq_all_int};
use crate::structures::{
    deep_copy, dict_get, dict_lookup, group_val_lemmas, res_view, EvalError, ExecuteOutput,
    Numeric, Val,
};

verus! {

/// Whether every element of the sequence is a dictionary.
pub open spec fn seq_all_dict(s: Seq<Val>) -> bool {
    forall|i: int| 0 <= i < s.len() ==> (#[trigger] s[i]) is Dictionary
}

/// Semantics of Access.
pub open spec fn access_vals(lhs: Val, rhs: Val) -> Result<Val, EvalError> {
    match (lhs, rhs) {
        (Val::Array(a), Val::Array(b)) => {
            if !seq_all_int(b) {
                Err(EvalError::TypeMismatch)
            } else if exists|i: int|
                0 <= i < b.len() && !(0 <= int_of(#[trigger] b[i]) < a.len()) {
                Err(EvalError::IndexOutOfBounds)
            } else {
                Ok(Val::Array(Seq::new(b.len(), |i: int| a[int_of(b[i]) as int])))
            }
        },
        (Val::Array(a), Val::Numeric(n)) => match n {
            Numeric::Int(x) => {
                if 0 <= x < a.len() {
                    Ok(a[x as int])
                } else {
                    Err(EvalError::IndexOutOfBounds)
                }
            },
            Numeric::Float(_) => Err(EvalError::TypeMismatch),
        },
        (Val::Array(a), Val::String(key)) => {
            if !seq_all_dict(a) {
                Err(EvalError::TypeMismatch)
            } else if exists|i: int|
                0 <= i < a.len() && dict_lookup(#[trigger] a[i]->Dictionary_0, key) is None {
                Err(EvalError::KeyNotFound)
            } else {
                Ok(
                    Val::Array(
                        Seq::new(a.len(), |i: int| dict_lookup(a[i]->Dictionary_0, key)->Some_0),
                    ),
                )
            }
        },
        (Val::Dictionary(es), Val::String(key)) => match dict_lookup(es, key) {
            Some(v) => Ok(v),
            None => Err(EvalError::KeyNotFound),
        },
        _ => Err(EvalError::UnsupportedOperands),
    }
}

/// Access one value with another under the rules of [`access_vals`].
pub fn execute_access(lhs: &ExecuteOutput, rhs: &ExecuteOutput) -> (r: Result<
    ExecuteOutput,
    EvalError,
>)
    ensures
        res_view(r) == access_vals(lhs@, rhs@),
{
    match (lhs, rhs) {
        (ExecuteOutput::Array(a), ExecuteOutput::Array(b)) => execute_access_array_with_array(a, b),
        (ExecuteOutput::Array(a), ExecuteOutput::String(s)) => execute_access_array_with_string(
            a,
            s,
        ),
        (ExecuteOutput::Array(a), ExecuteOutput::Numeric(n)) => execute_access_array_with_numeric(
            a,
            *n,
        ),
        (ExecuteOutput::Dictionary(es), ExecuteOutput::String(s)) => execute_access_dict_with_string(
            es,
            s,
        ),
        _ => Err(EvalError::UnsupportedOperands),
    }
}

/// Fancy indexing: gather the elements of the left array at the indices the
/// right array lists, in that order.
#[verifier::loop_isolation(false)]
fn execute_access_array_with_array(
    lhs_array: &Vec<ExecuteOutput>,
    rhs_array: &Vec<ExecuteOutput>,
) -> (r: Result<ExecuteOutput, EvalError>)
    ensures
        res_view(r) == access_vals(
            Val::Array(ExecuteOutput::seq_val(lhs_array@)),
            Val::Array(ExecuteOutput::seq_val(rhs_array@)),
        ),
{
    broadcast use group_val_lemmas;

    let ghost va = ExecuteOutput::seq_val(lhs_array@);
    let ghost vb = ExecuteOutput::seq_val(rhs_array@);
    let mut indices: Vec<i64> = Vec::new();
    let mut i: usize = 0;
    while i < rhs_array.len()
        invariant
            0 <= i <= rhs_array.len(),
            indices@.len() == i,
            forall|j: int| 0 <= j < i ==> vb[j] == Val::Numeric(Numeric::Int(indices@[j])),
        decreases rhs_array.len() - i,
    {
        match &rhs_array[i] {
            ExecuteOutput::Numeric(Numeric::Int(x)) => {
                indices.push(*x);
            },
            _ => {
                proof {
                    assert(!(vb[i as int] matches Val::Numeric(Numeric::Int(_))));
                }
                return Err(EvalError::TypeMismatch);
            },
        }
        i = i + 1;
    }
    let mut output: Vec<ExecuteOutput> = Vec::new();
    let mut i: usize = 0;
    while i < indices.len()
        invariant
            0 <= i <= indices.len(),
            output@.len() == i,
            forall|j: int| 0 <= j < i ==> 0 <= #[trigger] indices@[j] < lhs_array@.len(),
            forall|j: int| 0 <= j < i ==> output@[j].as_val() == va[indices@[j] as int],
        decreases indices.len() - i,
    {
        let idx = indices[i];
        if idx < 0 || idx as u64 >= lhs_array.len() as u64 {
            proof {
                assert(!(0 <= int_of(vb[i as int]) < va.len()));
            }
            return Err(EvalError::IndexOutOfBounds);
        }
        let copy = deep_copy(&lhs_array[idx as usize]);
        output.push(copy);
        i = i + 1;
    }
    proof {
        assert(ExecuteOutput::seq_val(output@) =~= Seq::new(
            vb.len(),
            |j: int| va[int_of(vb[j]) as int],
        ));
    }
    Ok(ExecuteOutput::Array(output))
}

/// A single Int index: the element itself, not wrapped in an array.
fn execute_access_array_with_numeric(lhs_array: &Vec<ExecuteOutput>, rhs_numeric: Numeric) -> (r:
    Result<ExecuteOutput, EvalError>)
    ensures
        res_view(r) == access_vals(
            Val::Array(ExecuteOutput::seq_val(lhs_array@)),
            Val::Numeric(rhs_numeric),
        ),
{
    broadcast use group_val_lemmas;

    match rhs_numeric {
        Numeric::Int(x) => {
            if x < 0 || x as u64 >= lhs_array.len() as u64 {
                Err(EvalError::IndexOutOfBounds)
            } else {
                Ok(deep_copy(&lhs_array[x as usize]))
            }
        },
        Numeric::Float(_) => Err(EvalError::TypeMismatch),
    }
}

/// Projection: the value under `rhs_string` out of every dictionary of the
/// left array, in order.
#[verifier::loop_isolation(false)]
fn execute_access_array_with_string(lhs_array: &Vec<ExecuteOutput>, rhs_string: &String) -> (r:
    Result<ExecuteOutput, EvalError>)
    ensures
        res_view(r) == access_vals(
            Val::Array(ExecuteOutput::seq_val(lhs_array@)),
            Val::String(rhs_string@),
        ),
{
    broadcast use group_val_lemmas;

    let ghost va = ExecuteOutput::seq_val(lhs_array@);
    let mut i: usize = 0;
    while i < lhs_array.len()
        invariant
            0 <= i <= lhs_array.len(),
            forall|j: int| 0 <= j < i ==> (#[trigger] va[j]) is Dictionary,
        decreases lhs_array.len() - i,
    {
        match &lhs_array[i] {
            ExecuteOutput::Dictionary(_) => {},
            _ => {
                proof {
                    assert(!(va[i as int] is Dictionary));
                }
                return Err(EvalError::TypeMismatch);
            },
        }
        i = i + 1;
    }
    let mut output: Vec<ExecuteOutput> = Vec::new();
    let mut i: usize = 0;
    while i < lhs_array.len()
        invariant
            0 <= i <= lhs_array.len(),
            output@.len() == i,
            seq_all_dict(va),
            forall|j: int|
                0 <= j < i ==> dict_lookup(#[trigger] va[j]->Dictionary_0, rhs_string@) is Some,
            forall|j: int|
                0 <= j < i ==> output@[j].as_val() == dict_lookup(
                    va[j]->Dictionary_0,
                    rhs_string@,
                )->Some_0,
        decreases lhs_array.len() - i,
    {
        match &lhs_array[i] {
            ExecuteOutput::Dictionary(entries) => {
                match dict_get(entries, rhs_string) {
                    Some(v) => {
                        let copy = deep_copy(v);
                        output.push(copy);
                    },
                    None => {
                        proof {
                            assert(dict_lookup(va[i as int]->Dictionary_0, rhs_string@) is None);
                        }
                        return Err(EvalError::KeyNotFound);
                    },
                }
            },
            _ => {
                proof {
                    assert(false);
                }
                return Err(EvalError::TypeMismatch);
            },
        }
        i = i + 1;
    }
    proof {
        assert(ExecuteOutput::seq_val(output@) =~= Seq::new(
            va.len(),
            |j: int| dict_lookup(va[j]->Dictionary_0, rhs_string@)->Some_0,
        ));
    }
    Ok(ExecuteOutput::Array(output))
}

/// Direct key lookup on a dictionary.
fn execute_access_dict_with_string(
    lhs_dict: &Vec<(String, ExecuteOutput)>,
    rhs_string: &String,
) -> (r: Result<ExecuteOutput, EvalError>)
    ensures
        res_view(r) == access_vals(
            Val::Dictionary(ExecuteOutput::entries_val(lhs_dict@)),
            Val::String(rhs_string@),
        ),
{
    broadcast use group_val_lemmas;

    match dict_get(lhs_dict, rhs_string) {
        Some(v) => Ok(deep_copy(v)),
        None => Err(EvalError::KeyNotFound),
    }
}

} // verus!
