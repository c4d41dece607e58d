//! The dyadic Multiply verb: scalar multiplication lifted over arrays and
//! dictionaries by structural broadcasting.

use vstd::prelude::*;
use crate::structures::{
    dict_get, dict_lookup, group_val_lemmas, res_view, EvalError, ExecuteOutput, Numeric, Val,
};

verus! {

/// Semantics of Multiply.
///
/// Arrays of one length multiply elementwise; a scalar broadcasts over an
/// array from either side; dictionaries of one entry count zip by the left
/// dictionary's keys, each looked up on the right; scalars multiply by
/// [`Numeric::spec_mul`].  Any other pairing is unsupported.
pub open spec fn multiply_vals(lhs: Val, rhs: Val) -> Result<Val, EvalError>
    decreases lhs, rhs,
{
    match (lhs, rhs) {
        (Val::Array(a), Val::Array(b)) => {
            if a.len() != b.len() {
                Err(EvalError::ShapeMismatch)
            } else {
                match multiply_elems(a, b) {
                    Ok(s) => Ok(Val::Array(s)),
                    Err(e) => Err(e),
                }
            }
        },
        (Val::Array(a), Val::Numeric(n)) => match multiply_scalar_seq(a, n) {
            Ok(s) => Ok(Val::Array(s)),
            Err(e) => Err(e),
        },
        (Val::Numeric(n), Val::Array(a)) => match multiply_scalar_seq(a, n) {
            Ok(s) => Ok(Val::Array(s)),
            Err(e) => Err(e),
        },
        (Val::Numeric(x), Val::Numeric(y)) => match x.spec_mul(y) {
            Ok(v) => Ok(Val::Numeric(v)),
            Err(e) => Err(e),
        },
        (Val::Dictionary(a), Val::Dictionary(b)) => {
            if a.len() != b.len() {
                Err(EvalError::ShapeMismatch)
            } else {
                match multiply_entries(a, b) {
                    Ok(s) => Ok(Val::Dictionary(s)),
                    Err(e) => Err(e),
                }
            }
        },
        _ => Err(EvalError::UnsupportedOperands),
    }
}

/// Elementwise Multiply over two sequences of one length; the error of the
/// first failing position, if any.
pub open spec fn multiply_elems(a: Seq<Val>, b: Seq<Val>) -> Result<Seq<Val>, EvalError>
    recommends
        a.len() == b.len(),
    decreases a, b,
{
    if a.len() == 0 {
        Ok(Seq::empty())
    } else {
        match multiply_elems(a.drop_last(), b.drop_last()) {
            Err(e) => Err(e),
            Ok(init) => match multiply_vals(a.last(), b.last()) {
                Err(e) => Err(e),
                Ok(v) => Ok(init.push(v)),
            },
        }
    }
}

/// Multiply of one value by the scalar `n`: a number multiplies directly, an
/// array takes the scalar elementwise, anything else is unsupported.
pub open spec fn multiply_scalar(v: Val, n: Numeric) -> Result<Val, EvalError>
    decreases v,
{
    match v {
        Val::Numeric(x) => match x.spec_mul(n) {
            Ok(r) => Ok(Val::Numeric(r)),
            Err(e) => Err(e),
        },
        Val::Array(s) => match multiply_scalar_seq(s, n) {
            Ok(r) => Ok(Val::Array(r)),
            Err(e) => Err(e),
        },
        _ => Err(EvalError::UnsupportedOperands),
    }
}

/// [`multiply_scalar`] over every element of a sequence; the error of the first
/// failing position, if any.
pub open spec fn multiply_scalar_seq(s: Seq<Val>, n: Numeric) -> Result<Seq<Val>, EvalError>
    decreases s,
{
    if s.len() == 0 {
        Ok(Seq::empty())
    } else {
        match multiply_scalar_seq(s.drop_last(), n) {
            Err(e) => Err(e),
            Ok(init) => match multiply_scalar(s.last(), n) {
                Err(e) => Err(e),
                Ok(v) => Ok(init.push(v)),
            },
        }
    }
}

/// Multiply over dictionaries: for each entry of `a` in order, the key is
/// looked up on `b` and the values multiply; a key `b` lacks is an error.
pub open spec fn multiply_entries(a: Seq<(Seq<char>, Val)>, b: Seq<(Seq<char>, Val)>) -> Result<
    Seq<(Seq<char>, Val)>,
    EvalError,
>
    decreases a, b,
{
    if a.len() == 0 {
        Ok(Seq::empty())
    } else {
        match multiply_entries(a.drop_last(), b) {
            Err(e) => Err(e),
            Ok(init) => match dict_lookup(b, a.last().0) {
                None => Err(EvalError::KeyNotFound),
                Some(bv) => {
                    proof {
                        assert(decreases_to!(a => a.last()));
                        assert(decreases_to!(a.last() => a.last().1));
                    }
                    match multiply_vals(a.last().1, bv) {
                        Err(e) => Err(e),
                        Ok(v) => Ok(init.push((a.last().0, v))),
                    }
                },
            },
        }
    }
}

/// Once a prefix of an elementwise Multiply fails, the whole fails the same
/// way.
proof fn lemma_multiply_elems_err_extend(a: Seq<Val>, b: Seq<Val>, i: int)
    requires
        0 <= i <= a.len(),
        a.len() == b.len(),
        multiply_elems(a.take(i), b.take(i)) is Err,
    ensures
        multiply_elems(a, b) == multiply_elems(a.take(i), b.take(i)),
    decreases a.len() - i,
{
    if i == a.len() {
        assert(a.take(i) =~= a);
        assert(b.take(i) =~= b);
    } else {
        assert(a.take(i + 1).drop_last() =~= a.take(i));
        assert(b.take(i + 1).drop_last() =~= b.take(i));
        lemma_multiply_elems_err_extend(a, b, i + 1);
    }
}

/// Once a prefix of a scalar broadcast fails, the whole fails the same way.
proof fn lemma_multiply_scalar_seq_err_extend(s: Seq<Val>, n: Numeric, i: int)
    requires
        0 <= i <= s.len(),
        multiply_scalar_seq(s.take(i), n) is Err,
    ensures
        multiply_scalar_seq(s, n) == multiply_scalar_seq(s.take(i), n),
    decreases s.len() - i,
{
    if i == s.len() {
        assert(s.take(i) =~= s);
    } else {
        assert(s.take(i + 1).drop_last() =~= s.take(i));
        lemma_multiply_scalar_seq_err_extend(s, n, i + 1);
    }
}

/// Once a prefix of a dictionary Multiply fails, the whole fails the same
/// way.
proof fn lemma_multiply_entries_err_extend(
    a: Seq<(Seq<char>, Val)>,
    b: Seq<(Seq<char>, Val)>,
    i: int,
)
    requires
        0 <= i <= a.len(),
        multiply_entries(a.take(i), b) is Err,
    ensures
        multiply_entries(a, b) == multiply_entries(a.take(i), b),
    decreases a.len() - i,
{
    if i == a.len() {
        assert(a.take(i) =~= a);
    } else {
        assert(a.take(i + 1).drop_last() =~= a.take(i));
        lemma_multiply_entries_err_extend(a, b, i + 1);
    }
}

/// Multiply two values under the broadcasting rules of [`multiply_vals`].
pub fn execute_multiply(lhs: &ExecuteOutput, rhs: &ExecuteOutput) -> (r: Result<
    ExecuteOutput,
    EvalError,
>)
    ensures
        res_view(r) == multiply_vals(lhs@, rhs@),
    decreases *lhs, *rhs,
{
    match (lhs, rhs) {
        (ExecuteOutput::Array(a), ExecuteOutput::Array(b)) => {
            proof {
                assert(*lhs == ExecuteOutput::Array(*a));
                assert(decreases_to!(ExecuteOutput::Array(*a) => *a));
            }
            execute_multiply_arrays(a, b)
        },
        (ExecuteOutput::Array(a), ExecuteOutput::Numeric(n)) => execute_multiply_array_and_numeric(
            a,
            *n,
        ),
        (ExecuteOutput::Numeric(n), ExecuteOutput::Array(a)) => execute_multiply_array_and_numeric(
            a,
            *n,
        ),
        (ExecuteOutput::Numeric(x), ExecuteOutput::Numeric(y)) => match x.mul(*y) {
            Ok(v) => Ok(ExecuteOutput::Numeric(v)),
            Err(e) => Err(e),
        },
        (ExecuteOutput::Dictionary(a), ExecuteOutput::Dictionary(b)) => {
            proof {
                assert(*lhs == ExecuteOutput::Dictionary(*a));
                assert(decreases_to!(ExecuteOutput::Dictionary(*a) => *a));
            }
            execute_multiply_dicts(a, b)
        },
        _ => Err(EvalError::UnsupportedOperands),
    }
}

/// Elementwise Multiply of two arrays of one length.
#[verifier::loop_isolation(false)]
fn execute_multiply_arrays(lhs_array: &Vec<ExecuteOutput>, rhs_array: &Vec<ExecuteOutput>) -> (r:
    Result<ExecuteOutput, EvalError>)
    ensures
        res_view(r) == multiply_vals(
            Val::Array(ExecuteOutput::seq_val(lhs_array@)),
            Val::Array(ExecuteOutput::seq_val(rhs_array@)),
        ),
    decreases *lhs_array, *rhs_array,
{
    broadcast use group_val_lemmas;

    let ghost va = ExecuteOutput::seq_val(lhs_array@);
    let ghost vb = ExecuteOutput::seq_val(rhs_array@);
    if lhs_array.len() != rhs_array.len() {
        return Err(EvalError::ShapeMismatch);
    }
    let mut output: Vec<ExecuteOutput> = Vec::new();
    let mut i: usize = 0;
    proof {
        assert(va.take(0) =~= Seq::<Val>::empty());
        assert(vb.take(0) =~= Seq::<Val>::empty());
    }
    while i < lhs_array.len()
        invariant
            0 <= i <= lhs_array.len(),
            multiply_elems(va.take(i as int), vb.take(i as int)) == Ok::<_, EvalError>(
                ExecuteOutput::seq_val(output@),
            ),
        decreases lhs_array.len() - i,
    {
        proof {
            assert(decreases_to!(*lhs_array => lhs_array@));
        }
        let e = execute_multiply(&lhs_array[i], &rhs_array[i]);
        proof {
            assert(va.take(i + 1).drop_last() =~= va.take(i as int));
            assert(vb.take(i + 1).drop_last() =~= vb.take(i as int));
            assert(va.take(i + 1).last() == va[i as int]);
            assert(vb.take(i + 1).last() == vb[i as int]);
        }
        match e {
            Ok(v) => {
                proof {
                    assert(output@.push(v).drop_last() =~= output@);
                }
                output.push(v);
            },
            Err(err) => {
                proof {
                    lemma_multiply_elems_err_extend(va, vb, i + 1);
                }
                return Err(err);
            },
        }
        i = i + 1;
    }
    proof {
        assert(va.take(i as int) =~= va);
        assert(vb.take(i as int) =~= vb);
    }
    Ok(ExecuteOutput::Array(output))
}

/// Multiply of one value by a scalar, as [`multiply_scalar`] says.
#[verifier::loop_isolation(false)]
fn execute_multiply_scalar(v: &ExecuteOutput, n: Numeric) -> (r: Result<ExecuteOutput, EvalError>)
    ensures
        res_view(r) == multiply_scalar(v@, n),
    decreases *v,
{
    broadcast use group_val_lemmas;

    match v {
        ExecuteOutput::Numeric(x) => match x.mul(n) {
            Ok(s) => Ok(ExecuteOutput::Numeric(s)),
            Err(e) => Err(e),
        },
        ExecuteOutput::Array(arr) => {
            let ghost vs = ExecuteOutput::seq_val(arr@);
            let mut output: Vec<ExecuteOutput> = Vec::new();
            let mut i: usize = 0;
            proof {
                assert(vs.take(0) =~= Seq::<Val>::empty());
            }
            while i < arr.len()
                invariant
                    0 <= i <= arr.len(),
                    multiply_scalar_seq(vs.take(i as int), n) == Ok::<_, EvalError>(
                        ExecuteOutput::seq_val(output@),
                    ),
                decreases arr.len() - i,
            {
                proof {
                    assert(*v == ExecuteOutput::Array(*arr));
                    assert(decreases_to!(ExecuteOutput::Array(*arr) => *arr));
                    assert(decreases_to!(*arr => arr@));
                }
                let e = execute_multiply_scalar(&arr[i], n);
                proof {
                    assert(vs.take(i + 1).drop_last() =~= vs.take(i as int));
                    assert(vs.take(i + 1).last() == vs[i as int]);
                }
                match e {
                    Ok(w) => {
                        proof {
                            assert(output@.push(w).drop_last() =~= output@);
                        }
                        output.push(w);
                    },
                    Err(err) => {
                        proof {
                            lemma_multiply_scalar_seq_err_extend(vs, n, i + 1);
                        }
                        return Err(err);
                    },
                }
                i = i + 1;
            }
            proof {
                assert(vs.take(i as int) =~= vs);
            }
            Ok(ExecuteOutput::Array(output))
        },
        _ => Err(EvalError::UnsupportedOperands),
    }
}

/// Multiply with a scalar broadcast over every element of an array; the
/// scalar may stand on either side.
#[verifier::loop_isolation(false)]
fn execute_multiply_array_and_numeric(int_array: &Vec<ExecuteOutput>, int_val: Numeric) -> (r: Result<
    ExecuteOutput,
    EvalError,
>)
    ensures
        res_view(r) == multiply_vals(
            Val::Array(ExecuteOutput::seq_val(int_array@)),
            Val::Numeric(int_val),
        ),
        res_view(r) == multiply_vals(
            Val::Numeric(int_val),
            Val::Array(ExecuteOutput::seq_val(int_array@)),
        ),
{
    broadcast use group_val_lemmas;

    let ghost vs = ExecuteOutput::seq_val(int_array@);
    let mut output: Vec<ExecuteOutput> = Vec::new();
    let mut i: usize = 0;
    proof {
        assert(vs.take(0) =~= Seq::<Val>::empty());
    }
    while i < int_array.len()
        invariant
            0 <= i <= int_array.len(),
            multiply_scalar_seq(vs.take(i as int), int_val) == Ok::<_, EvalError>(
                ExecuteOutput::seq_val(output@),
            ),
        decreases int_array.len() - i,
    {
        let e = execute_multiply_scalar(&int_array[i], int_val);
        proof {
            assert(vs.take(i + 1).drop_last() =~= vs.take(i as int));
            assert(vs.take(i + 1).last() == vs[i as int]);
        }
        match e {
            Ok(w) => {
                proof {
                    assert(output@.push(w).drop_last() =~= output@);
                }
                output.push(w);
            },
            Err(err) => {
                proof {
                    lemma_multiply_scalar_seq_err_extend(vs, int_val, i + 1);
                }
                return Err(err);
            },
        }
        i = i + 1;
    }
    proof {
        assert(vs.take(i as int) =~= vs);
    }
    Ok(ExecuteOutput::Array(output))
}

/// Multiply two dictionaries of one entry count, zipping values by the left
/// dictionary's keys.
#[verifier::loop_isolation(false)]
fn execute_multiply_dicts(
    lhs_dict: &Vec<(String, ExecuteOutput)>,
    rhs_dict: &Vec<(String, ExecuteOutput)>,
) -> (r: Result<ExecuteOutput, EvalError>)
    ensures
        res_view(r) == multiply_vals(
            Val::Dictionary(ExecuteOutput::entries_val(lhs_dict@)),
            Val::Dictionary(ExecuteOutput::entries_val(rhs_dict@)),
        ),
    decreases *lhs_dict, *rhs_dict,
{
    broadcast use group_val_lemmas;

    let ghost va = ExecuteOutput::entries_val(lhs_dict@);
    let ghost vb = ExecuteOutput::entries_val(rhs_dict@);
    if lhs_dict.len() != rhs_dict.len() {
        return Err(EvalError::ShapeMismatch);
    }
    let mut output: Vec<(String, ExecuteOutput)> = Vec::new();
    let mut i: usize = 0;
    proof {
        assert(va.take(0) =~= Seq::<(Seq<char>, Val)>::empty());
    }
    while i < lhs_dict.len()
        invariant
            0 <= i <= lhs_dict.len(),
            multiply_entries(va.take(i as int), vb) == Ok::<_, EvalError>(
                ExecuteOutput::entries_val(output@),
            ),
        decreases lhs_dict.len() - i,
    {
        proof {
            assert(va.take(i + 1).drop_last() =~= va.take(i as int));
            assert(va.take(i + 1).last() == va[i as int]);
        }
        let key = lhs_dict[i].0.clone();
        match dict_get(rhs_dict, &key) {
            None => {
                proof {
                    lemma_multiply_entries_err_extend(va, vb, i + 1);
                }
                return Err(EvalError::KeyNotFound);
            },
            Some(bv) => {
                proof {
                    assert(decreases_to!(*lhs_dict => lhs_dict@));
                    assert(decreases_to!(lhs_dict@ => lhs_dict@[i as int]));
                    assert(decreases_to!(lhs_dict@[i as int] => lhs_dict@[i as int].1));
                }
                let e = execute_multiply(&lhs_dict[i].1, bv);
                match e {
                    Ok(v) => {
                        proof {
                            assert(output@.push((key, v)).drop_last() =~= output@);
                        }
                        output.push((key, v));
                    },
                    Err(err) => {
                        proof {
                            lemma_multiply_entries_err_extend(va, vb, i + 1);
                        }
                        return Err(err);
                    },
                }
            },
        }
        i = i + 1;
    }
    proof {
        assert(va.take(i as int) =~= va);
    }
    Ok(ExecuteOutput::Dictionary(output))
}

} // verus!
