//! Laws of the evaluator, stated once over the semantics functions and
//! proved for every input.

use vstd::prelude::*;
use crate::dyadic_add::{add_elems, add_scalar, add_scalar_seq, add_vals};
use crate::dyadic_divide::{divide_vals, promote_bits};
use crate::execute::spec_eval;
use crate::float_bits::f64_div_bits;
use crate::parse_structures::Ast;
use crate::structures::{EvalError, Numeric, Val};

verus! {

/// Elementwise success of Add over sequences: a successful [`add_elems`] is
/// as long as its operands and holds the scalar sums position by position.
proof fn lemma_add_elems_index(a: Seq<Val>, b: Seq<Val>, c: Seq<Val>)
    requires
        a.len() == b.len(),
        add_elems(a, b) == Ok::<Seq<Val>, EvalError>(c),
    ensures
        c.len() == a.len(),
        forall|i: int| 0 <= i < a.len() ==> add_vals(a[i], b[i]) == Ok::<Val, EvalError>(c[i]),
    decreases a,
{
    if a.len() > 0 {
        let init = add_elems(a.drop_last(), b.drop_last())->Ok_0;
        lemma_add_elems_index(a.drop_last(), b.drop_last(), init);
        assert forall|i: int| 0 <= i < a.len() implies add_vals(a[i], b[i]) == Ok::<
            Val,
            EvalError,
        >(c[i]) by {
            if i < a.len() - 1 {
                assert(a.drop_last()[i] == a[i]);
                assert(b.drop_last()[i] == b[i]);
            }
        }
    }
}

/// Adding two arrays of one length is elementwise: each element of the sum
/// is the Add of the elements at the same position.
pub proof fn lemma_add_arrays_elementwise(a: Seq<Val>, b: Seq<Val>, c: Seq<Val>)
    requires
        a.len() == b.len(),
        add_vals(Val::Array(a), Val::Array(b)) == Ok::<Val, EvalError>(Val::Array(c)),
    ensures
        c.len() == a.len(),
        forall|i: int| 0 <= i < a.len() ==> add_vals(a[i], b[i]) == Ok::<Val, EvalError>(c[i]),
{
    lemma_add_elems_index(a, b, c);
}

/// Elementwise success of a scalar broadcast: a successful
/// [`add_scalar_seq`] holds [`add_scalar`] of each element.
proof fn lemma_add_scalar_seq_index(a: Seq<Val>, n: Numeric, c: Seq<Val>)
    requires
        add_scalar_seq(a, n) == Ok::<Seq<Val>, EvalError>(c),
    ensures
        c.len() == a.len(),
        forall|i: int| 0 <= i < a.len() ==> add_scalar(a[i], n) == Ok::<Val, EvalError>(c[i]),
    decreases a,
{
    if a.len() > 0 {
        let init = add_scalar_seq(a.drop_last(), n)->Ok_0;
        lemma_add_scalar_seq_index(a.drop_last(), n, init);
        assert forall|i: int| 0 <= i < a.len() implies add_scalar(a[i], n) == Ok::<
            Val,
            EvalError,
        >(c[i]) by {
            if i < a.len() - 1 {
                assert(a.drop_last()[i] == a[i]);
            }
        }
    }
}

/// Adding a scalar to one value is the same as Add with the scalar as the
/// right operand, whatever the value is.
pub proof fn lemma_add_scalar_is_add(v: Val, n: Numeric)
    ensures
        add_scalar(v, n) == add_vals(v, Val::Numeric(n)),
{
}

/// A scalar added to an array broadcasts the same from either side, and the
/// result is the elementwise Add of each element with the scalar.
pub proof fn lemma_add_scalar_broadcast(a: Seq<Val>, n: Numeric)
    ensures
        add_vals(Val::Array(a), Val::Numeric(n)) == add_vals(Val::Numeric(n), Val::Array(a)),
        add_vals(Val::Array(a), Val::Numeric(n)) matches Ok(c) ==> c matches Val::Array(cs)
            && cs.len() == a.len() && forall|i: int|
            0 <= i < a.len() ==> add_vals(a[i], Val::Numeric(n)) == Ok::<Val, EvalError>(cs[i]),
{
    if add_vals(Val::Array(a), Val::Numeric(n)) is Ok {
        let cs = add_scalar_seq(a, n)->Ok_0;
        lemma_add_scalar_seq_index(a, n, cs);
        assert forall|i: int| 0 <= i < a.len() implies add_vals(a[i], Val::Numeric(n)) == Ok::<
            Val,
            EvalError,
        >(cs[i]) by {
            lemma_add_scalar_is_add(a[i], n);
        }
    }
}

/// Dividing a number by a number always yields a Float — the quotient of
/// the promoted doubles — even for exact integer inputs, and never fails.
pub proof fn lemma_divide_numeric_yields_float(x: Numeric, y: Numeric)
    ensures
        divide_vals(Val::Numeric(x), Val::Numeric(y)) == Ok::<Val, EvalError>(
            Val::Numeric(Numeric::Float(f64_div_bits(promote_bits(x), promote_bits(y)))),
        ),
{
}

/// Assignment round-trip: when assigning `expr` to a name succeeds, a
/// variable reference to that name right after returns exactly the assigned
/// value, and the read changes nothing.
pub proof fn lemma_assignment_round_trip(
    name: Seq<char>,
    expr: Ast,
    env: Map<Seq<char>, Val>,
    out: Seq<Val>,
)
    ensures
        ({
            let (env1, out1, r1) = spec_eval(
                Ast::GlobalVar { variable: name, expression: Box::new(expr) },
                env,
                out,
            );
            r1 is Ok ==> {
                &&& r1 == Ok::<Val, EvalError>(Val::Null)
                &&& spec_eval(Ast::Variable(name), env1, out1) == (
                    env1,
                    out1,
                    Ok::<Val, EvalError>(spec_eval(expr, env, out).2->Ok_0),
                )
            }
        }),
{
}

/// Generate of any non-positive count — zero or negative — is the empty
/// array, never an error: the documented boundary choice.
pub proof fn lemma_generate_non_positive_is_empty(n: i64)
    requires
        n <= 0,
    ensures
        crate::execute_monadic::monadic_vals(
            crate::parse_structures::MonadicVerb::Generate,
            Val::Numeric(Numeric::Int(n)),
        ) == Ok::<Val, EvalError>(Val::Array(Seq::empty())),
{
}

/// Reading a variable changes neither the environment nor the observation
/// channel, so two reads of one name against an unchanged environment
/// return equal values.
pub proof fn lemma_variable_ref_idempotent(name: Seq<char>, env: Map<Seq<char>, Val>, out: Seq<Val>)
    ensures
        spec_eval(Ast::Variable(name), env, out).0 == env,
        spec_eval(Ast::Variable(name), env, out).1 == out,
        ({
            let (env1, out1, r1) = spec_eval(Ast::Variable(name), env, out);
            spec_eval(Ast::Variable(name), env1, out1).2 == r1
        }),
{
}

} // verus!
