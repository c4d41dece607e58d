//! The dyadic Add verb: scalar addition lifted over arrays and dictionaries
//! by structural broadcasting.

use vstd::prelude::*;
use crate::structures::{
    dict_get, dict_lookup, group_val_lemmas, res_view, EvalError, ExecuteOutput, Numeric, Val,
};

verus! {

/// Semantics of Add.
///
/// Arrays of one length add elementwise; a scalar broadcasts over an array
/// from either side; dictionaries of one entry count zip by the left
/// dictionary's keys, each looked up on the right; scalars add by
/// [`Numeric::spec_add`].  Any other pairing is unsupported.
pub open spec fn add_vals(lhs: Val, rhs: Val) -> Result<Val, EvalError>
    decreases lhs, rhs,
{
    match (lhs, rhs) {
        (Val::Array(a), Val::Array(b)) => {
            if a.len() != b.len() {
                Err(EvalError::ShapeMismatch)
            } else {
                match add_elems(a, b) {
                    Ok(s) => Ok(Val::Array(s)),
                    Err(e) => Err(e),
                }
            }
        },
        (Val::Array(a), Val::Numeric(n)) => match add_scalar_seq(a, n) {
            Ok(s) => Ok(Val::Array(s)),
            Err(e) => Err(e),
        },
        (Val::Numeric(n), Val::Array(a)) => match add_scalar_seq(a, n) {
            Ok(s) => Ok(Val::Array(s)),
            Err(e) => Err(e),
        },
        (Val::Numeric(x), Val::Numeric(y)) => match x.spec_add(y) {
            Ok(v) => Ok(Val::Numeric(v)),
            Err(e) => Err(e),
        },
        (Val::Dictionary(a), Val::Dictionary(b)) => {
            if a.len() != b.len() {
                Err(EvalError::ShapeMismatch)
            } else {
                match add_entries(a, b) {
                    Ok(s) => Ok(Val::Dictionary(s)),
                    Err(e) => Err(e),
                }
            }
        },
        _ => Err(EvalError::UnsupportedOperands),
    }
}

/// Elementwise Add over two sequences of one length; the error of the first
/// failing position, if any.
pub open spec fn add_elems(a: Seq<Val>, b: Seq<Val>) -> Result<Seq<Val>, EvalError>
    recommends
        a.len() == b.len(),
    decreases a, b,
{
    if a.len() == 0 {
        Ok(Seq::empty())
    } else {
        match add_elems(a.drop_last(), b.drop_last()) {
            Err(e) => Err(e),
            Ok(init) => match add_vals(a.last(), b.last()) {
                Err(e) => Err(e),
                Ok(v) => Ok(init.push(v)),
            },
        }
    }
}

/// Add of the scalar `n` to one value: a number adds directly, an array
/// takes the scalar elementwise, anything else is unsupported.
pub open spec fn add_scalar(v: Val, n: Numeric) -> Result<Val, EvalError>
    decreases v,
{
    match v {
        Val::Numeric(x) => match x.spec_add(n) {
            Ok(r) => Ok(Val::Numeric(r)),
            Err(e) => Err(e),
        },
        Val::Array(s) => match add_scalar_seq(s, n) {
            Ok(r) => Ok(Val::Array(r)),
            Err(e) => Err(e),
        },
        _ => Err(EvalError::UnsupportedOperands),
    }
}

/// [`add_scalar`] over every element of a sequence; the error of the first
/// failing position, if any.
pub open spec fn add_scalar_seq(s: Seq<Val>, n: Numeric) -> Result<Seq<Val>, EvalError>
    decreases s,
{
    if s.len() == 0 {
        Ok(Seq::empty())
    } else {
        match add_scalar_seq(s.drop_last(), n) {
            Err(e) => Err(e),
            Ok(init) => match add_scalar(s.last(), n) {
                Err(e) => Err(e),
                Ok(v) => Ok(init.push(v)),
            },
        }
    }
}

/// Add over dictionaries: for each entry of `a` in order, the key is looked
/// up on `b` and the values add; a key `b` lacks is an error.
pub open spec fn add_entries(a: Seq<(Seq<char>, Val)>, b: Seq<(Seq<char>, Val)>) -> Result<
    Seq<(Seq<char>, Val)>,
    EvalError,
>
    decreases a, b,
{
    if a.len() == 0 {
        Ok(Seq::empty())
    } else {
        match add_entries(a.drop_last(), b) {
            Err(e) => Err(e),
            Ok(init) => match dict_lookup(b, a.last().0) {
                None => Err(EvalError::KeyNotFound),
                Some(bv) => {
                    proof {
                        assert(decreases_to!(a => a.last()));
                        assert(decreases_to!(a.last() => a.last().1));
                    }
                    match add_vals(a.last().1, bv) {
                        Err(e) => Err(e),
                        Ok(v) => Ok(init.push((a.last().0, v))),
                    }
                },
            },
        }
    }
}

/// Once a prefix of an elementwise Add fails, the whole fails the same way.
proof fn lemma_add_elems_err_extend(a: Seq<Val>, b: Seq<Val>, i: int)
    requires
        0 <= i <= a.len(),
        a.len() == b.len(),
        add_elems(a.take(i), b.take(i)) is Err,
    ensures
        add_elems(a, b) == add_elems(a.take(i), b.take(i)),
    decreases a.len() - i,
{
    if i == a.len() {
        assert(a.take(i) =~= a);
        assert(b.take(i) =~= b);
    } else {
        assert(a.take(i + 1).drop_last() =~= a.take(i));
        assert(b.take(i + 1).drop_last() =~= b.take(i));
        lemma_add_elems_err_extend(a, b, i + 1);
    }
}

/// Once a prefix of a scalar broadcast fails, the whole fails the same way.
proof fn lemma_add_scalar_seq_err_extend(s: Seq<Val>, n: Numeric, i: int)
    requires
        0 <= i <= s.len(),
        add_scalar_seq(s.take(i), n) is Err,
    ensures
        add_scalar_seq(s, n) == add_scalar_seq(s.take(i), n),
    decreases s.len() - i,
{
    if i == s.len() {
        assert(s.take(i) =~= s);
    } else {
        assert(s.take(i + 1).drop_last() =~= s.take(i));
        lemma_add_scalar_seq_err_extend(s, n, i + 1);
    }
}

/// Once a prefix of a dictionary Add fails, the whole fails the same way.
proof fn lemma_add_entries_err_extend(
    a: Seq<(Seq<char>, Val)>,
    b: Seq<(Seq<char>, Val)>,
    i: int,
)
    requires
        0 <= i <= a.len(),
        add_entries(a.take(i), b) is Err,
    ensures
        add_entries(a, b) == add_entries(a.take(i), b),
    decreases a.len() - i,
{
    if i == a.len() {
        assert(a.take(i) =~= a);
    } else {
        assert(a.take(i + 1).drop_last() =~= a.take(i));
        lemma_add_entries_err_extend(a, b, i + 1);
    }
}

/// Add two values under the broadcasting rules of [`add_vals`].
pub fn execute_add(lhs: &ExecuteOutput, rhs: &ExecuteOutput) -> (r: Result<
    ExecuteOutput,
    EvalError,
>)
    ensures
        res_view(r) == add_vals(lhs@, rhs@),
    decreases *lhs, *rhs,
{
    match (lhs, rhs) {
        (ExecuteOutput::Array(a), ExecuteOutput::Array(b)) => {
            proof {
                assert(*lhs == ExecuteOutput::Array(*a));
                assert(decreases_to!(ExecuteOutput::Array(*a) => *a));
            }
            execute_add_arrays(a, b)
        },
        (ExecuteOutput::Array(a), ExecuteOutput::Numeric(n)) => execute_add_array_and_numeric(
            a,
            *n,
        ),
        (ExecuteOutput::Numeric(n), ExecuteOutput::Array(a)) => execute_add_array_and_numeric(
            a,
            *n,
        ),
        (ExecuteOutput::Numeric(x), ExecuteOutput::Numeric(y)) => match x.add(*y) {
            Ok(v) => Ok(ExecuteOutput::Numeric(v)),
            Err(e) => Err(e),
        },
        (ExecuteOutput::Dictionary(a), ExecuteOutput::Dictionary(b)) => {
            proof {
                assert(*lhs == ExecuteOutput::Dictionary(*a));
                assert(decreases_to!(ExecuteOutput::Dictionary(*a) => *a));
            }
            execute_add_dicts(a, b)
        },
        _ => Err(EvalError::UnsupportedOperands),
    }
}

/// Elementwise Add of two arrays of one length.
#[verifier::loop_isolation(false)]
fn execute_add_arrays(lhs_array: &Vec<ExecuteOutput>, rhs_array: &Vec<ExecuteOutput>) -> (r:
    Result<ExecuteOutput, EvalError>)
    ensures
        res_view(r) == add_vals(
            Val::Array(ExecuteOutput::seq_val(lhs_array@)),
            Val::Array(ExecuteOutput::seq_val(rhs_array@)),
        ),
    decreases *lhs_array, *rhs_array,
{
    broadcast use group_val_lemmas;

    let ghost va = ExecuteOutput::seq_val(lhs_array@);
    let ghost vb = ExecuteOutput::seq_val(rhs_array@);
    if lhs_array.len() != rhs_array.len() {
        return Err(EvalError::ShapeMismatch);
    }
    let mut output: Vec<ExecuteOutput> = Vec::new();
    let mut i: usize = 0;
    proof {
        assert(va.take(0) =~= Seq::<Val>::empty());
        assert(vb.take(0) =~= Seq::<Val>::empty());
    }
    while i < lhs_array.len()
        invariant
            0 <= i <= lhs_array.len(),
            add_elems(va.take(i as int), vb.take(i as int)) == Ok::<_, EvalError>(
                ExecuteOutput::seq_val(output@),
            ),
        decreases lhs_array.len() - i,
    {
        proof {
            assert(decreases_to!(*lhs_array => lhs_array@));
        }
        let e = execute_add(&lhs_array[i], &rhs_array[i]);
        proof {
            assert(va.take(i + 1).drop_last() =~= va.take(i as int));
            assert(vb.take(i + 1).drop_last() =~= vb.take(i as int));
            assert(va.take(i + 1).last() == va[i as int]);
            assert(vb.take(i + 1).last() == vb[i as int]);
        }
        match e {
            Ok(v) => {
                proof {
                    assert(output@.push(v).drop_last() =~= output@);
                }
                output.push(v);
            },
            Err(err) => {
                proof {
                    lemma_add_elems_err_extend(va, vb, i + 1);
                }
                return Err(err);
            },
        }
        i = i + 1;
    }
    proof {
        assert(va.take(i as int) =~= va);
        assert(vb.take(i as int) =~= vb);
    }
    Ok(ExecuteOutput::Array(output))
}

/// Add of a scalar to one value, as [`add_scalar`] says.
#[verifier::loop_isolation(false)]
fn execute_add_scalar(v: &ExecuteOutput, n: Numeric) -> (r: Result<ExecuteOutput, EvalError>)
    ensures
        res_view(r) == add_scalar(v@, n),
    decreases *v,
{
    broadcast use group_val_lemmas;

    match v {
        ExecuteOutput::Numeric(x) => match x.add(n) {
            Ok(s) => Ok(ExecuteOutput::Numeric(s)),
            Err(e) => Err(e),
        },
        ExecuteOutput::Array(arr) => {
            let ghost vs = ExecuteOutput::seq_val(arr@);
            let mut output: Vec<ExecuteOutput> = Vec::new();
            let mut i: usize = 0;
            proof {
                assert(vs.take(0) =~= Seq::<Val>::empty());
            }
            while i < arr.len()
                invariant
                    0 <= i <= arr.len(),
                    add_scalar_seq(vs.take(i as int), n) == Ok::<_, EvalError>(
                        ExecuteOutput::seq_val(output@),
                    ),
                decreases arr.len() - i,
            {
                proof {
                    assert(*v == ExecuteOutput::Array(*arr));
                    assert(decreases_to!(ExecuteOutput::Array(*arr) => *arr));
                    assert(decreases_to!(*arr => arr@));
                }
                let e = execute_add_scalar(&arr[i], n);
                proof {
                    assert(vs.take(i + 1).drop_last() =~= vs.take(i as int));
                    assert(vs.take(i + 1).last() == vs[i as int]);
                }
                match e {
                    Ok(w) => {
                        proof {
                            assert(output@.push(w).drop_last() =~= output@);
                        }
                        output.push(w);
                    },
                    Err(err) => {
                        proof {
                            lemma_add_scalar_seq_err_extend(vs, n, i + 1);
                        }
                        return Err(err);
                    },
                }
                i = i + 1;
            }
            proof {
                assert(vs.take(i as int) =~= vs);
            }
            Ok(ExecuteOutput::Array(output))
        },
        _ => Err(EvalError::UnsupportedOperands),
    }
}

/// Add with a scalar broadcast over every element of an array; the scalar
/// may stand on either side.
#[verifier::loop_isolation(false)]
fn execute_add_array_and_numeric(int_array: &Vec<ExecuteOutput>, int_val: Numeric) -> (r: Result<
    ExecuteOutput,
    EvalError,
>)
    ensures
        res_view(r) == add_vals(
            Val::Array(ExecuteOutput::seq_val(int_array@)),
            Val::Numeric(int_val),
        ),
        res_view(r) == add_vals(
            Val::Numeric(int_val),
            Val::Array(ExecuteOutput::seq_val(int_array@)),
        ),
{
    broadcast use group_val_lemmas;

    let ghost vs = ExecuteOutput::seq_val(int_array@);
    let mut output: Vec<ExecuteOutput> = Vec::new();
    let mut i: usize = 0;
    proof {
        assert(vs.take(0) =~= Seq::<Val>::empty());
    }
    while i < int_array.len()
        invariant
            0 <= i <= int_array.len(),
            add_scalar_seq(vs.take(i as int), int_val) == Ok::<_, EvalError>(
                ExecuteOutput::seq_val(output@),
            ),
        decreases int_array.len() - i,
    {
        let e = execute_add_scalar(&int_array[i], int_val);
        proof {
            assert(vs.take(i + 1).drop_last() =~= vs.take(i as int));
            assert(vs.take(i + 1).last() == vs[i as int]);
        }
        match e {
            Ok(w) => {
                proof {
                    assert(output@.push(w).drop_last() =~= output@);
                }
                output.push(w);
            },
            Err(err) => {
                proof {
                    lemma_add_scalar_seq_err_extend(vs, int_val, i + 1);
                }
                return Err(err);
            },
        }
        i = i + 1;
    }
    proof {
        assert(vs.take(i as int) =~= vs);
    }
    Ok(ExecuteOutput::Array(output))
}

/// Add two dictionaries of one entry count, zipping values by the left
/// dictionary's keys.
#[verifier::loop_isolation(false)]
fn execute_add_dicts(
    lhs_dict: &Vec<(String, ExecuteOutput)>,
    rhs_dict: &Vec<(String, ExecuteOutput)>,
) -> (r: Result<ExecuteOutput, EvalError>)
    ensures
        res_view(r) == add_vals(
            Val::Dictionary(ExecuteOutput::entries_val(lhs_dict@)),
            Val::Dictionary(ExecuteOutput::entries_val(rhs_dict@)),
        ),
    decreases *lhs_dict, *rhs_dict,
{
    broadcast use group_val_lemmas;

    let ghost va = ExecuteOutput::entries_val(lhs_dict@);
    let ghost vb = ExecuteOutput::entries_val(rhs_dict@);
    if lhs_dict.len() != rhs_dict.len() {
        return Err(EvalError::ShapeMismatch);
    }
    let mut output: Vec<(String, ExecuteOutput)> = Vec::new();
    let mut i: usize = 0;
    proof {
        assert(va.take(0) =~= Seq::<(Seq<char>, Val)>::empty());
    }
    while i < lhs_dict.len()
        invariant
            0 <= i <= lhs_dict.len(),
            add_entries(va.take(i as int), vb) == Ok::<_, EvalError>(
                ExecuteOutput::entries_val(output@),
            ),
        decreases lhs_dict.len() - i,
    {
        proof {
            assert(va.take(i + 1).drop_last() =~= va.take(i as int));
            assert(va.take(i + 1).last() == va[i as int]);
        }
        let key = lhs_dict[i].0.clone();
        match dict_get(rhs_dict, &key) {
            None => {
                proof {
                    lemma_add_entries_err_extend(va, vb, i + 1);
                }
                return Err(EvalError::KeyNotFound);
            },
            Some(bv) => {
                proof {
                    assert(decreases_to!(*lhs_dict => lhs_dict@));
                    assert(decreases_to!(lhs_dict@ => lhs_dict@[i as int]));
                    assert(decreases_to!(lhs_dict@[i as int] => lhs_dict@[i as int].1));
                }
                let e = execute_add(&lhs_dict[i].1, bv);
                match e {
                    Ok(v) => {
                        proof {
                            assert(output@.push((key, v)).drop_last() =~= output@);
                        }
                        output.push((key, v));
                    },
                    Err(err) => {
                        proof {
                            lemma_add_entries_err_extend(va, vb, i + 1);
                        }
                        return Err(err);
                    },
                }
            },
        }
        i = i + 1;
    }
    proof {
        assert(va.take(i as int) =~= va);
    }
    Ok(ExecuteOutput::Dictionary(output))
}

} // verus!
