//! The dyadic Divide verb.
//!
//! Numeric division always promotes both operands to IEEE-754 doubles and
//! yields a Float, even for exact integer inputs.  Division by zero follows
//! IEEE-754 — the quotient is an infinity, or NaN for zero over zero — and
//! is never an error.  A scalar divisor broadcasts over an array or over a
//! dictionary's values; two arrays divide elementwise.  A scalar over an
//! array, or a dictionary pair, is unsupported.

use vstd::prelude::*;
use crate::float_bits::{f64_div_bits, f64_of_int, float_div, float_of_i64};
use crate::structures::{group_val_lemmas, res_view, EvalError, ExecuteOutput, Numeric, Val};

verus! {

/// The IEEE-754 double a scalar promotes to, as bits: an Int converts, a
/// Float already is one.
pub open spec fn promote_bits(n: Numeric) -> u64 {
    match n {
        Numeric::Int(x) => f64_of_int(x),
        Numeric::Float(b) => b,
    }
}

/// Semantics of Divide.
pub open spec fn divide_vals(lhs: Val, rhs: Val) -> Result<Val, EvalError>
    decreases lhs, rhs,
{
    match (lhs, rhs) {
        (Val::Array(a), Val::Array(b)) => {
            if a.len() != b.len() {
                Err(EvalError::ShapeMismatch)
            } else {
                match divide_elems(a, b) {
                    Ok(s) => Ok(Val::Array(s)),
                    Err(e) => Err(e),
                }
            }
        },
        (Val::Array(a), Val::Numeric(n)) => match divide_scalar_seq(a, n) {
            Ok(s) => Ok(Val::Array(s)),
            Err(e) => Err(e),
        },
        (Val::Dictionary(es), Val::Numeric(n)) => match divide_scalar_entries(es, n) {
            Ok(s) => Ok(Val::Dictionary(s)),
            Err(e) => Err(e),
        },
        (Val::Numeric(x), Val::Numeric(y)) => Ok(
            Val::Numeric(Numeric::Float(f64_div_bits(promote_bits(x), promote_bits(y)))),
        ),
        _ => Err(EvalError::UnsupportedOperands),
    }
}

/// Elementwise Divide over two sequences of one length; the error of the
/// first failing position, if any.
pub open spec fn divide_elems(a: Seq<Val>, b: Seq<Val>) -> Result<Seq<Val>, EvalError>
    recommends
        a.len() == b.len(),
    decreases a, b,
{
    if a.len() == 0 {
        Ok(Seq::empty())
    } else {
        match divide_elems(a.drop_last(), b.drop_last()) {
            Err(e) => Err(e),
            Ok(init) => match divide_vals(a.last(), b.last()) {
                Err(e) => Err(e),
                Ok(v) => Ok(init.push(v)),
            },
        }
    }
}

/// Divide of one value by the scalar `n`: a number divides directly, an
/// array or a dictionary takes the divisor structurally, anything else is
/// unsupported.
pub open spec fn divide_scalar(v: Val, n: Numeric) -> Result<Val, EvalError>
    decreases v,
{
    match v {
        Val::Numeric(x) => Ok(
            Val::Numeric(Numeric::Float(f64_div_bits(promote_bits(x), promote_bits(n)))),
        ),
        Val::Array(s) => match divide_scalar_seq(s, n) {
            Ok(r) => Ok(Val::Array(r)),
            Err(e) => Err(e),
        },
        Val::Dictionary(es) => match divide_scalar_entries(es, n) {
            Ok(r) => Ok(Val::Dictionary(r)),
            Err(e) => Err(e),
        },
        _ => Err(EvalError::UnsupportedOperands),
    }
}

/// [`divide_scalar`] over every element of a sequence.
pub open spec fn divide_scalar_seq(s: Seq<Val>, n: Numeric) -> Result<Seq<Val>, EvalError>
    decreases s,
{
    if s.len() == 0 {
        Ok(Seq::empty())
    } else {
        match divide_scalar_seq(s.drop_last(), n) {
            Err(e) => Err(e),
            Ok(init) => match divide_scalar(s.last(), n) {
                Err(e) => Err(e),
                Ok(v) => Ok(init.push(v)),
            },
        }
    }
}

/// [`divide_scalar`] over every value of a dictionary, keys kept.
pub open spec fn divide_scalar_entries(es: Seq<(Seq<char>, Val)>, n: Numeric) -> Result<
    Seq<(Seq<char>, Val)>,
    EvalError,
>
    decreases es,
{
    if es.len() == 0 {
        Ok(Seq::empty())
    } else {
        match divide_scalar_entries(es.drop_last(), n) {
            Err(e) => Err(e),
            Ok(init) => {
                proof {
                    assert(decreases_to!(es => es.last()));
                    assert(decreases_to!(es.last() => es.last().1));
                }
                match divide_scalar(es.last().1, n) {
                    Err(e) => Err(e),
                    Ok(v) => Ok(init.push((es.last().0, v))),
                }
            },
        }
    }
}

/// Once a prefix of an elementwise Divide fails, the whole fails the same
/// way.
proof fn lemma_divide_elems_err_extend(a: Seq<Val>, b: Seq<Val>, i: int)
    requires
        0 <= i <= a.len(),
        a.len() == b.len(),
        divide_elems(a.take(i), b.take(i)) is Err,
    ensures
        divide_elems(a, b) == divide_elems(a.take(i), b.take(i)),
    decreases a.len() - i,
{
    if i == a.len() {
        assert(a.take(i) =~= a);
        assert(b.take(i) =~= b);
    } else {
        assert(a.take(i + 1).drop_last() =~= a.take(i));
        assert(b.take(i + 1).drop_last() =~= b.take(i));
        lemma_divide_elems_err_extend(a, b, i + 1);
    }
}

/// Once a prefix of a scalar broadcast fails, the whole fails the same way.
proof fn lemma_divide_scalar_seq_err_extend(s: Seq<Val>, n: Numeric, i: int)
    requires
        0 <= i <= s.len(),
        divide_scalar_seq(s.take(i), n) is Err,
    ensures
        divide_scalar_seq(s, n) == divide_scalar_seq(s.take(i), n),
    decreases s.len() - i,
{
    if i == s.len() {
        assert(s.take(i) =~= s);
    } else {
        assert(s.take(i + 1).drop_last() =~= s.take(i));
        lemma_divide_scalar_seq_err_extend(s, n, i + 1);
    }
}

/// Once a prefix of a dictionary broadcast fails, the whole fails the same
/// way.
proof fn lemma_divide_scalar_entries_err_extend(es: Seq<(Seq<char>, Val)>, n: Numeric, i: int)
    requires
        0 <= i <= es.len(),
        divide_scalar_entries(es.take(i), n) is Err,
    ensures
        divide_scalar_entries(es, n) == divide_scalar_entries(es.take(i), n),
    decreases es.len() - i,
{
    if i == es.len() {
        assert(es.take(i) =~= es);
    } else {
        assert(es.take(i + 1).drop_last() =~= es.take(i));
        lemma_divide_scalar_entries_err_extend(es, n, i + 1);
    }
}

/// The bits of the double a scalar promotes to.
fn to_float_bits(n: Numeric) -> (r: u64)
    ensures
        r == promote_bits(n),
{
    match n {
        Numeric::Int(x) => float_of_i64(x),
        Numeric::Float(b) => b,
    }
}

/// Divide two values under the rules of [`divide_vals`].
pub fn execute_divide(lhs: &ExecuteOutput, rhs: &ExecuteOutput) -> (r: Result<
    ExecuteOutput,
    EvalError,
>)
    ensures
        res_view(r) == divide_vals(lhs@, rhs@),
    decreases *lhs, *rhs,
{
    match (lhs, rhs) {
        (ExecuteOutput::Array(a), ExecuteOutput::Array(b)) => {
            proof {
                assert(*lhs == ExecuteOutput::Array(*a));
                assert(decreases_to!(ExecuteOutput::Array(*a) => *a));
            }
            execute_divide_array_by_array(a, b)
        },
        (ExecuteOutput::Array(a), ExecuteOutput::Numeric(n)) => execute_divide_array_by_numeric(
            a,
            *n,
        ),
        (ExecuteOutput::Dictionary(es), ExecuteOutput::Numeric(n)) => {
            proof {
                assert(*lhs == ExecuteOutput::Dictionary(*es));
                assert(decreases_to!(ExecuteOutput::Dictionary(*es) => *es));
            }
            execute_divide_dict_by_numeric(es, *n)
        },
        (ExecuteOutput::Numeric(x), ExecuteOutput::Numeric(y)) => execute_divide_numeric_by_numeric(
            *x,
            *y,
        ),
        _ => Err(EvalError::UnsupportedOperands),
    }
}

/// Divide of a number by a number: both promote to doubles and the quotient
/// is always a Float.
fn execute_divide_numeric_by_numeric(lhs_numeric: Numeric, rhs_numeric: Numeric) -> (r: Result<
    ExecuteOutput,
    EvalError,
>)
    ensures
        res_view(r) == Ok::<Val, EvalError>(
            Val::Numeric(
                Numeric::Float(
                    f64_div_bits(promote_bits(lhs_numeric), promote_bits(rhs_numeric)),
                ),
            ),
        ),
{
    let lhs_float = to_float_bits(lhs_numeric);
    let rhs_float = to_float_bits(rhs_numeric);
    Ok(ExecuteOutput::Numeric(Numeric::Float(float_div(lhs_float, rhs_float))))
}

/// Elementwise Divide of two arrays of one length.
#[verifier::loop_isolation(false)]
fn execute_divide_array_by_array(
    lhs_array: &Vec<ExecuteOutput>,
    rhs_array: &Vec<ExecuteOutput>,
) -> (r: Result<ExecuteOutput, EvalError>)
    ensures
        res_view(r) == divide_vals(
            Val::Array(ExecuteOutput::seq_val(lhs_array@)),
            Val::Array(ExecuteOutput::seq_val(rhs_array@)),
        ),
    decreases *lhs_array, *rhs_array,
{
    broadcast use group_val_lemmas;

    let ghost va = ExecuteOutput::seq_val(lhs_array@);
    let ghost vb = ExecuteOutput::seq_val(rhs_array@);
    if lhs_array.len() != rhs_array.len() {
        return Err(EvalError::ShapeMismatch);
    }
    let mut output: Vec<ExecuteOutput> = Vec::new();
    let mut i: usize = 0;
    proof {
        assert(va.take(0) =~= Seq::<Val>::empty());
        assert(vb.take(0) =~= Seq::<Val>::empty());
    }
    while i < lhs_array.len()
        invariant
            0 <= i <= lhs_array.len(),
            divide_elems(va.take(i as int), vb.take(i as int)) == Ok::<_, EvalError>(
                ExecuteOutput::seq_val(output@),
            ),
        decreases lhs_array.len() - i,
    {
        proof {
            assert(decreases_to!(*lhs_array => lhs_array@));
        }
        let e = execute_divide(&lhs_array[i], &rhs_array[i]);
        proof {
            assert(va.take(i + 1).drop_last() =~= va.take(i as int));
            assert(vb.take(i + 1).drop_last() =~= vb.take(i as int));
            assert(va.take(i + 1).last() == va[i as int]);
            assert(vb.take(i + 1).last() == vb[i as int]);
        }
        match e {
            Ok(v) => {
                proof {
                    assert(output@.push(v).drop_last() =~= output@);
                }
                output.push(v);
            },
            Err(err) => {
                proof {
                    lemma_divide_elems_err_extend(va, vb, i + 1);
                }
                return Err(err);
            },
        }
        i = i + 1;
    }
    proof {
        assert(va.take(i as int) =~= va);
        assert(vb.take(i as int) =~= vb);
    }
    Ok(ExecuteOutput::Array(output))
}

/// Divide of one value by a scalar, as [`divide_scalar`] says.
#[verifier::loop_isolation(false)]
fn execute_divide_scalar(v: &ExecuteOutput, n: Numeric) -> (r: Result<ExecuteOutput, EvalError>)
    ensures
        res_view(r) == divide_scalar(v@, n),
    decreases *v,
{
    broadcast use group_val_lemmas;

    match v {
        ExecuteOutput::Numeric(x) => execute_divide_numeric_by_numeric(*x, n),
        ExecuteOutput::Array(arr) => {
            let ghost vs = ExecuteOutput::seq_val(arr@);
            let mut output: Vec<ExecuteOutput> = Vec::new();
            let mut i: usize = 0;
            proof {
                assert(vs.take(0) =~= Seq::<Val>::empty());
            }
            while i < arr.len()
                invariant
                    0 <= i <= arr.len(),
                    divide_scalar_seq(vs.take(i as int), n) == Ok::<_, EvalError>(
                        ExecuteOutput::seq_val(output@),
                    ),
                decreases arr.len() - i,
            {
                proof {
                    assert(*v == ExecuteOutput::Array(*arr));
                    assert(decreases_to!(ExecuteOutput::Array(*arr) => *arr));
                    assert(decreases_to!(*arr => arr@));
                }
                let e = execute_divide_scalar(&arr[i], n);
                proof {
                    assert(vs.take(i + 1).drop_last() =~= vs.take(i as int));
                    assert(vs.take(i + 1).last() == vs[i as int]);
                }
                match e {
                    Ok(w) => {
                        proof {
                            assert(output@.push(w).drop_last() =~= output@);
                        }
                        output.push(w);
                    },
                    Err(err) => {
                        proof {
                            lemma_divide_scalar_seq_err_extend(vs, n, i + 1);
                        }
                        return Err(err);
                    },
                }
                i = i + 1;
            }
            proof {
                assert(vs.take(i as int) =~= vs);
            }
            Ok(ExecuteOutput::Array(output))
        },
        ExecuteOutput::Dictionary(entries) => {
            proof {
                assert(*v == ExecuteOutput::Dictionary(*entries));
                assert(decreases_to!(ExecuteOutput::Dictionary(*entries) => *entries));
            }
            execute_divide_dict_by_numeric(entries, n)
        },
        _ => Err(EvalError::UnsupportedOperands),
    }
}

/// Divide with a scalar broadcast over every element of an array.
fn execute_divide_array_by_numeric(lhs_array: &Vec<ExecuteOutput>, numeric: Numeric) -> (r:
    Result<ExecuteOutput, EvalError>)
    ensures
        res_view(r) == divide_vals(
            Val::Array(ExecuteOutput::seq_val(lhs_array@)),
            Val::Numeric(numeric),
        ),
{
    broadcast use group_val_lemmas;

    match execute_divide_scalar_vec(lhs_array, numeric) {
        Ok(output) => Ok(ExecuteOutput::Array(output)),
        Err(e) => Err(e),
    }
}

/// [`execute_divide_scalar`] over every element of a vector.
#[verifier::loop_isolation(false)]
fn execute_divide_scalar_vec(arr: &Vec<ExecuteOutput>, n: Numeric) -> (r: Result<
    Vec<ExecuteOutput>,
    EvalError,
>)
    ensures
        match r {
            Ok(output) => divide_scalar_seq(ExecuteOutput::seq_val(arr@), n) == Ok::<
                _,
                EvalError,
            >(ExecuteOutput::seq_val(output@)),
            Err(e) => divide_scalar_seq(ExecuteOutput::seq_val(arr@), n) == Err::<
                Seq<Val>,
                _,
            >(e),
        },
    decreases *arr,
{
    broadcast use group_val_lemmas;

    let ghost vs = ExecuteOutput::seq_val(arr@);
    let mut output: Vec<ExecuteOutput> = Vec::new();
    let mut i: usize = 0;
    proof {
        assert(vs.take(0) =~= Seq::<Val>::empty());
    }
    while i < arr.len()
        invariant
            0 <= i <= arr.len(),
            divide_scalar_seq(vs.take(i as int), n) == Ok::<_, EvalError>(
                ExecuteOutput::seq_val(output@),
            ),
        decreases arr.len() - i,
    {
        let e = execute_divide_scalar(&arr[i], n);
        proof {
            assert(vs.take(i + 1).drop_last() =~= vs.take(i as int));
            assert(vs.take(i + 1).last() == vs[i as int]);
        }
        match e {
            Ok(w) => {
                proof {
                    assert(output@.push(w).drop_last() =~= output@);
                }
                output.push(w);
            },
            Err(err) => {
                proof {
                    lemma_divide_scalar_seq_err_extend(vs, n, i + 1);
                }
                return Err(err);
            },
        }
        i = i + 1;
    }
    proof {
        assert(vs.take(i as int) =~= vs);
    }
    Ok(output)
}

/// Divide with a scalar broadcast over every value of a dictionary.
#[verifier::loop_isolation(false)]
fn execute_divide_dict_by_numeric(lhs_dict: &Vec<(String, ExecuteOutput)>, numeric: Numeric) -> (r:
    Result<ExecuteOutput, EvalError>)
    ensures
        res_view(r) == divide_vals(
            Val::Dictionary(ExecuteOutput::entries_val(lhs_dict@)),
            Val::Numeric(numeric),
        ),
    decreases *lhs_dict,
{
    broadcast use group_val_lemmas;

    let ghost ves = ExecuteOutput::entries_val(lhs_dict@);
    let mut output: Vec<(String, ExecuteOutput)> = Vec::new();
    let mut i: usize = 0;
    proof {
        assert(ves.take(0) =~= Seq::<(Seq<char>, Val)>::empty());
    }
    while i < lhs_dict.len()
        invariant
            0 <= i <= lhs_dict.len(),
            divide_scalar_entries(ves.take(i as int), numeric) == Ok::<_, EvalError>(
                ExecuteOutput::entries_val(output@),
            ),
        decreases lhs_dict.len() - i,
    {
        proof {
            assert(decreases_to!(*lhs_dict => lhs_dict@));
            assert(decreases_to!(lhs_dict@ => lhs_dict@[i as int]));
            assert(decreases_to!(lhs_dict@[i as int] => lhs_dict@[i as int].1));
            assert(ves.take(i + 1).drop_last() =~= ves.take(i as int));
            assert(ves.take(i + 1).last() == ves[i as int]);
        }
        let key = lhs_dict[i].0.clone();
        let e = execute_divide_scalar(&lhs_dict[i].1, numeric);
        match e {
            Ok(w) => {
                proof {
                    assert(output@.push((key, w)).drop_last() =~= output@);
                }
                output.push((key, w));
            },
            Err(err) => {
                proof {
                    lemma_divide_scalar_entries_err_extend(ves, numeric, i + 1);
                }
                return Err(err);
            },
        }
        i = i + 1;
    }
    proof {
        assert(ves.take(i as int) =~= ves);
    }
    Ok(ExecuteOutput::Dictionary(output))
}

} // verus!
