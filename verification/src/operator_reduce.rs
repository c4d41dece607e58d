//! The Reduce operator-verb: folds a dyadic verb over an array, seeded with
//! an identity value shaped like the array's first element.

use vstd::prelude::*;
use crate::dyadic_add::{add_vals, execute_add};
use crate::dyadic_multiply::{execute_multiply, multiply_vals};
use crate::float_bits::{f64_of_int, float_of_i64};
use crate::parse_structures::DyadicVerb;
use crate::structures::{group_val_lemmas, res_view, EvalError, ExecuteOutput, Numeric, Val};

verus! {

/// Which identity the fold is seeded with: zero for Add, one for Multiply.
#[derive(Debug, Clone, Copy, PartialEq, Eq, Structural)]
pub enum IdentityType {
    ADD,
    MULTIPLY,
}

/// The integer behind the identity: zero for Add, one for Multiply.
pub open spec fn identity_int(identity_type: IdentityType) -> i64 {
    match identity_type {
        IdentityType::ADD => 0,
        IdentityType::MULTIPLY => 1,
    }
}

/// The identity value shaped like `template`: at an Int leaf the identity
/// integer, at a Float leaf its double, through arrays and dictionaries the
/// same shape with every leaf replaced; a leaf with no identity — a string
/// or Null — has none.
pub open spec fn spec_initial_reduce_value(template: Val, identity_type: IdentityType) -> Result<
    Val,
    EvalError,
>
    decreases template,
{
    match template {
        Val::Numeric(Numeric::Float(_)) => Ok(
            Val::Numeric(Numeric::Float(f64_of_int(identity_int(identity_type)))),
        ),
        Val::Numeric(Numeric::Int(_)) => Ok(Val::Numeric(Numeric::Int(identity_int(identity_type)))),
        Val::Array(s) => match identity_seq(s, identity_type) {
            Ok(r) => Ok(Val::Array(r)),
            Err(e) => Err(e),
        },
        Val::Dictionary(es) => match identity_entries(es, identity_type) {
            Ok(r) => Ok(Val::Dictionary(r)),
            Err(e) => Err(e),
        },
        _ => Err(EvalError::UnsupportedOperands),
    }
}

/// [`spec_initial_reduce_value`] over every element of a sequence.
pub open spec fn identity_seq(s: Seq<Val>, identity_type: IdentityType) -> Result<
    Seq<Val>,
    EvalError,
>
    decreases s,
{
    if s.len() == 0 {
        Ok(Seq::empty())
    } else {
        match identity_seq(s.drop_last(), identity_type) {
            Err(e) => Err(e),
            Ok(init) => match spec_initial_reduce_value(s.last(), identity_type) {
                Err(e) => Err(e),
                Ok(v) => Ok(init.push(v)),
            },
        }
    }
}

/// [`spec_initial_reduce_value`] over every value of a dictionary, keys kept.
pub open spec fn identity_entries(es: Seq<(Seq<char>, Val)>, identity_type: IdentityType) -> Result<
    Seq<(Seq<char>, Val)>,
    EvalError,
>
    decreases es,
{
    if es.len() == 0 {
        Ok(Seq::empty())
    } else {
        match identity_entries(es.drop_last(), identity_type) {
            Err(e) => Err(e),
            Ok(init) => {
                proof {
                    assert(decreases_to!(es => es.last()));
                    assert(decreases_to!(es.last() => es.last().1));
                }
                match spec_initial_reduce_value(es.last().1, identity_type) {
                    Err(e) => Err(e),
                    Ok(v) => Ok(init.push((es.last().0, v))),
                }
            },
        }
    }
}

/// Once a prefix of an identity build fails, the whole fails the same way.
proof fn lemma_identity_seq_err_extend(s: Seq<Val>, identity_type: IdentityType, i: int)
    requires
        0 <= i <= s.len(),
        identity_seq(s.take(i), identity_type) is Err,
    ensures
        identity_seq(s, identity_type) == identity_seq(s.take(i), identity_type),
    decreases s.len() - i,
{
    if i == s.len() {
        assert(s.take(i) =~= s);
    } else {
        assert(s.take(i + 1).drop_last() =~= s.take(i));
        lemma_identity_seq_err_extend(s, identity_type, i + 1);
    }
}

/// Once a prefix of a dictionary identity build fails, the whole fails the
/// same way.
proof fn lemma_identity_entries_err_extend(
    es: Seq<(Seq<char>, Val)>,
    identity_type: IdentityType,
    i: int,
)
    requires
        0 <= i <= es.len(),
        identity_entries(es.take(i), identity_type) is Err,
    ensures
        identity_entries(es, identity_type) == identity_entries(es.take(i), identity_type),
    decreases es.len() - i,
{
    if i == es.len() {
        assert(es.take(i) =~= es);
    } else {
        assert(es.take(i + 1).drop_last() =~= es.take(i));
        lemma_identity_entries_err_extend(es, identity_type, i + 1);
    }
}

/// One fold step: the broadcasting Add or Multiply of the accumulator with
/// the next element.
pub open spec fn reduce_step(verb: DyadicVerb, acc: Val, x: Val) -> Result<Val, EvalError> {
    match verb {
        DyadicVerb::Add => add_vals(acc, x),
        DyadicVerb::Multiply => multiply_vals(acc, x),
        _ => Err(EvalError::OperatorNotImplemented),
    }
}

/// The left fold of `verb` over `s`, starting from `acc`.
pub open spec fn reduce_fold(verb: DyadicVerb, acc: Val, s: Seq<Val>) -> Result<Val, EvalError>
    decreases s.len(),
{
    if s.len() == 0 {
        Ok(acc)
    } else {
        match reduce_step(verb, acc, s[0]) {
            Err(e) => Err(e),
            Ok(t) => reduce_fold(verb, t, s.drop_first()),
        }
    }
}

/// Semantics of Reduce: only Add and Multiply fold; the operand must be a
/// non-empty array; the fold starts from the identity shaped like the first
/// element and takes the elements in order.
pub open spec fn reduce_vals(lhs_verb: DyadicVerb, v: Val) -> Result<Val, EvalError> {
    match lhs_verb {
        DyadicVerb::Add | DyadicVerb::Multiply => match v {
            Val::Array(s) => {
                if s.len() == 0 {
                    Err(EvalError::EmptyReduce)
                } else {
                    match spec_initial_reduce_value(s[0], identity_type_of(lhs_verb)) {
                        Err(e) => Err(e),
                        Ok(init) => reduce_fold(lhs_verb, init, s),
                    }
                }
            },
            _ => Err(EvalError::UnsupportedOperands),
        },
        _ => Err(EvalError::OperatorNotImplemented),
    }
}

/// The identity kind a reduction verb seeds with.
pub open spec fn identity_type_of(verb: DyadicVerb) -> IdentityType {
    if verb is Multiply {
        IdentityType::MULTIPLY
    } else {
        IdentityType::ADD
    }
}

/// Fold the dyadic verb on the left of a Reduce over an evaluated operand.
pub fn execute_reduce_dyadic_lhs(lhs_verb: DyadicVerb, rhs: ExecuteOutput) -> (r: Result<
    ExecuteOutput,
    EvalError,
>)
    ensures
        res_view(r) == reduce_vals(lhs_verb, rhs@),
{
    match lhs_verb {
        DyadicVerb::Add => reduce_dyadic_add(rhs),
        DyadicVerb::Multiply => reduce_dyadic_multiply(rhs),
        _ => Err(EvalError::OperatorNotImplemented),
    }
}

/// Reduce with Add: fold the array from the zero identity.
#[verifier::loop_isolation(false)]
fn reduce_dyadic_add(rhs: ExecuteOutput) -> (r: Result<ExecuteOutput, EvalError>)
    ensures
        res_view(r) == reduce_vals(DyadicVerb::Add, rhs@),
{
    broadcast use group_val_lemmas;

    match rhs {
        ExecuteOutput::Array(arr) => {
            let ghost vs = ExecuteOutput::seq_val(arr@);
            if arr.len() == 0 {
                return Err(EvalError::EmptyReduce);
            }
            let mut total = match initial_reduce_value(&arr[0], IdentityType::ADD) {
                Ok(v) => v,
                Err(e) => {
                    return Err(e);
                },
            };
            proof {
                assert(vs.skip(0) =~= vs);
            }
            let mut i: usize = 0;
            while i < arr.len()
                invariant
                    0 <= i <= arr.len(),
                    reduce_fold(DyadicVerb::Add, spec_initial_reduce_value(vs[0], IdentityType::ADD)->Ok_0, vs)
                        == reduce_fold(DyadicVerb::Add, total@, vs.skip(i as int)),
                decreases arr.len() - i,
            {
                proof {
                    assert(vs.skip(i as int)[0] == vs[i as int]);
                    assert(vs.skip(i as int).drop_first() =~= vs.skip(i + 1));
                }
                match execute_add(&total, &arr[i]) {
                    Ok(t) => {
                        total = t;
                    },
                    Err(e) => {
                        return Err(e);
                    },
                }
                i = i + 1;
            }
            proof {
                assert(vs.skip(i as int).len() == 0);
            }
            Ok(total)
        },
        _ => Err(EvalError::UnsupportedOperands),
    }
}

/// Reduce with Multiply: fold the array from the one identity.
#[verifier::loop_isolation(false)]
fn reduce_dyadic_multiply(rhs: ExecuteOutput) -> (r: Result<ExecuteOutput, EvalError>)
    ensures
        res_view(r) == reduce_vals(DyadicVerb::Multiply, rhs@),
{
    broadcast use group_val_lemmas;

    match rhs {
        ExecuteOutput::Array(arr) => {
            let ghost vs = ExecuteOutput::seq_val(arr@);
            if arr.len() == 0 {
                return Err(EvalError::EmptyReduce);
            }
            let mut total = match initial_reduce_value(&arr[0], IdentityType::MULTIPLY) {
                Ok(v) => v,
                Err(e) => {
                    return Err(e);
                },
            };
            proof {
                assert(vs.skip(0) =~= vs);
            }
            let mut i: usize = 0;
            while i < arr.len()
                invariant
                    0 <= i <= arr.len(),
                    reduce_fold(DyadicVerb::Multiply, spec_initial_reduce_value(vs[0], IdentityType::MULTIPLY)->Ok_0, vs)
                        == reduce_fold(DyadicVerb::Multiply, total@, vs.skip(i as int)),
                decreases arr.len() - i,
            {
                proof {
                    assert(vs.skip(i as int)[0] == vs[i as int]);
                    assert(vs.skip(i as int).drop_first() =~= vs.skip(i + 1));
                }
                match execute_multiply(&total, &arr[i]) {
                    Ok(t) => {
                        total = t;
                    },
                    Err(e) => {
                        return Err(e);
                    },
                }
                i = i + 1;
            }
            proof {
                assert(vs.skip(i as int).len() == 0);
            }
            Ok(total)
        },
        _ => Err(EvalError::UnsupportedOperands),
    }
}

/// The identity value shaped like `template`, as
/// [`spec_initial_reduce_value`] says.
#[verifier::loop_isolation(false)]
fn initial_reduce_value(template: &ExecuteOutput, identity_type: IdentityType) -> (r: Result<
    ExecuteOutput,
    EvalError,
>)
    ensures
        res_view(r) == spec_initial_reduce_value(template@, identity_type),
    decreases *template,
{
    broadcast use group_val_lemmas;

    match template {
        ExecuteOutput::Numeric(Numeric::Float(_)) => {
            let identity_val: i64 = match identity_type {
                IdentityType::ADD => 0,
                IdentityType::MULTIPLY => 1,
            };
            Ok(ExecuteOutput::Numeric(Numeric::Float(float_of_i64(identity_val))))
        },
        ExecuteOutput::Numeric(Numeric::Int(_)) => {
            let identity_val: i64 = match identity_type {
                IdentityType::ADD => 0,
                IdentityType::MULTIPLY => 1,
            };
            Ok(ExecuteOutput::Numeric(Numeric::Int(identity_val)))
        },
        ExecuteOutput::Array(arr) => {
            let ghost vs = ExecuteOutput::seq_val(arr@);
            let mut initial: Vec<ExecuteOutput> = Vec::new();
            let mut i: usize = 0;
            proof {
                assert(vs.take(0) =~= Seq::<Val>::empty());
            }
            while i < arr.len()
                invariant
                    0 <= i <= arr.len(),
                    identity_seq(vs.take(i as int), identity_type) == Ok::<_, EvalError>(
                        ExecuteOutput::seq_val(initial@),
                    ),
                decreases arr.len() - i,
            {
                proof {
                    assert(*template == ExecuteOutput::Array(*arr));
                    assert(decreases_to!(ExecuteOutput::Array(*arr) => *arr));
                    assert(decreases_to!(*arr => arr@));
                }
                let e = initial_reduce_value(&arr[i], identity_type);
                proof {
                    assert(vs.take(i + 1).drop_last() =~= vs.take(i as int));
                    assert(vs.take(i + 1).last() == vs[i as int]);
                }
                match e {
                    Ok(v) => {
                        proof {
                            assert(initial@.push(v).drop_last() =~= initial@);
                        }
                        initial.push(v);
                    },
                    Err(err) => {
                        proof {
                            lemma_identity_seq_err_extend(vs, identity_type, i + 1);
                        }
                        return Err(err);
                    },
                }
                i = i + 1;
            }
            proof {
                assert(vs.take(i as int) =~= vs);
            }
            Ok(ExecuteOutput::Array(initial))
        },
        ExecuteOutput::Dictionary(entries) => {
            let ghost ves = ExecuteOutput::entries_val(entries@);
            let mut initial: Vec<(String, ExecuteOutput)> = Vec::new();
            let mut i: usize = 0;
            proof {
                assert(ves.take(0) =~= Seq::<(Seq<char>, Val)>::empty());
            }
            while i < entries.len()
                invariant
                    0 <= i <= entries.len(),
                    identity_entries(ves.take(i as int), identity_type) == Ok::<_, EvalError>(
                        ExecuteOutput::entries_val(initial@),
                    ),
                decreases entries.len() - i,
            {
                proof {
                    assert(*template == ExecuteOutput::Dictionary(*entries));
                    assert(decreases_to!(ExecuteOutput::Dictionary(*entries) => *entries));
                    assert(decreases_to!(*entries => entries@));
                    assert(decreases_to!(entries@ => entries@[i as int]));
                    assert(decreases_to!(entries@[i as int] => entries@[i as int].1));
                    assert(ves.take(i + 1).drop_last() =~= ves.take(i as int));
                    assert(ves.take(i + 1).last() == ves[i as int]);
                }
                let key = entries[i].0.clone();
                let e = initial_reduce_value(&entries[i].1, identity_type);
                match e {
                    Ok(v) => {
                        proof {
                            assert(initial@.push((key, v)).drop_last() =~= initial@);
                        }
                        initial.push((key, v));
                    },
                    Err(err) => {
                        proof {
                            lemma_identity_entries_err_extend(ves, identity_type, i + 1);
                        }
                        return Err(err);
                    },
                }
                i = i + 1;
            }
            proof {
                assert(ves.take(i as int) =~= ves);
            }
            Ok(ExecuteOutput::Dictionary(initial))
        },
        _ => Err(EvalError::UnsupportedOperands),
    }
}

} // verus!
