//! The recursive evaluator: from one syntax tree and the current
//! environment to a value, an updated environment, and the values Print
//! handed to the observation channel.
//!
//! [`spec_eval`] is the semantics: a pure function from the models of the
//! tree, the environment and the output channel to their state after the
//! line.  [`execute_expression`] is proved to realise it exactly, errors and
//! partial effects included.

use vstd::prelude::*;
use crate::environment::Environment;
use crate::execute_dyadic::{dyadic_vals, execute_dyadic_op};
use crate::execute_monadic::{execute_monadic_op, monadic_vals};
use crate::execute_operator::{execute_operator_op, operator_vals};
use crate::execute_unwrap::{unwrap_array, unwrap_dictionary, unwrap_variable};
use crate::parse_structures::{Ast, AstNode, MonadicVerb};
use crate::structures::{res_view, EvalError, ExecuteOutput, Val};

verus! {

/// The semantics of one expression: the environment after it, the
/// observation channel after it, and its value or error.
///
/// An assignment evaluates its right-hand side against a snapshot of the
/// environment, so nested assignments made there are invisible outside; the
/// result is then stored under the name, replacing any previous value whole.
/// Print appends the operand's value to the observation channel and yields
/// Null.  On an error, the environment and channel keep the effects of the
/// sub-expressions already evaluated.
pub open spec fn spec_eval(n: Ast, env: Map<Seq<char>, Val>, out: Seq<Val>) -> (
    Map<Seq<char>, Val>,
    Seq<Val>,
    Result<Val, EvalError>,
)
    decreases n,
{
    match n {
        Ast::Numeric(x) => (env, out, Ok(Val::Numeric(x))),
        Ast::String(s) => (env, out, Ok(Val::String(s))),
        Ast::Array(nodes) => {
            let (env1, out1, r) = spec_eval_seq(nodes, env, out);
            match r {
                Ok(vs) => (env1, out1, Ok(Val::Array(vs))),
                Err(e) => (env1, out1, Err(e)),
            }
        },
        Ast::Dictionary(entries) => {
            let (env1, out1, r) = spec_eval_entries(entries, env, out);
            match r {
                Ok(es) => (env1, out1, Ok(Val::Dictionary(es))),
                Err(e) => (env1, out1, Err(e)),
            }
        },
        Ast::Variable(name) => {
            if env.contains_key(name) {
                (env, out, Ok(env[name]))
            } else {
                (env, out, Err(EvalError::UndefinedVariable))
            }
        },
        Ast::GlobalVar { variable, expression } => {
            let (_, out1, r) = spec_eval(*expression, env, out);
            match r {
                Ok(v) => (env.insert(variable, v), out1, Ok(Val::Null)),
                Err(e) => (env, out1, Err(e)),
            }
        },
        Ast::DyadicOp { verb, lhs, rhs } => {
            let (env1, out1, r1) = spec_eval(*lhs, env, out);
            match r1 {
                Err(e) => (env1, out1, Err(e)),
                Ok(v1) => {
                    let (env2, out2, r2) = spec_eval(*rhs, env1, out1);
                    match r2 {
                        Err(e) => (env2, out2, Err(e)),
                        Ok(v2) => (env2, out2, dyadic_vals(verb, v1, v2)),
                    }
                },
            }
        },
        Ast::MonadicOp { verb, rhs } => {
            let (env1, out1, r1) = spec_eval(*rhs, env, out);
            match r1 {
                Err(e) => (env1, out1, Err(e)),
                Ok(v) => {
                    if verb is Print {
                        (env1, out1.push(v), Ok(Val::Null))
                    } else {
                        (env1, out1, monadic_vals(verb, v))
                    }
                },
            }
        },
        Ast::OperatorOp { lhs_verb, operator_verb, rhs } => {
            let (env1, out1, r1) = spec_eval(*rhs, env, out);
            match r1 {
                Err(e) => (env1, out1, Err(e)),
                Ok(v) => (env1, out1, operator_vals(lhs_verb, operator_verb, v)),
            }
        },
    }
}

/// [`spec_eval`] over the elements of an array literal, front to back,
/// threading the environment and the channel through.
pub open spec fn spec_eval_seq(s: Seq<Ast>, env: Map<Seq<char>, Val>, out: Seq<Val>) -> (
    Map<Seq<char>, Val>,
    Seq<Val>,
    Result<Seq<Val>, EvalError>,
)
    decreases s,
{
    if s.len() == 0 {
        (env, out, Ok(Seq::empty()))
    } else {
        let (env1, out1, r1) = spec_eval_seq(s.drop_last(), env, out);
        match r1 {
            Err(e) => (env1, out1, Err(e)),
            Ok(vs) => {
                let (env2, out2, r2) = spec_eval(s.last(), env1, out1);
                match r2 {
                    Err(e) => (env2, out2, Err(e)),
                    Ok(v) => (env2, out2, Ok(vs.push(v))),
                }
            },
        }
    }
}

/// [`spec_eval`] over the values of a dictionary literal, in entry order,
/// keys kept.
pub open spec fn spec_eval_entries(
    s: Seq<(Seq<char>, Ast)>,
    env: Map<Seq<char>, Val>,
    out: Seq<Val>,
) -> (Map<Seq<char>, Val>, Seq<Val>, Result<Seq<(Seq<char>, Val)>, EvalError>)
    decreases s,
{
    if s.len() == 0 {
        (env, out, Ok(Seq::empty()))
    } else {
        let (env1, out1, r1) = spec_eval_entries(s.drop_last(), env, out);
        match r1 {
            Err(e) => (env1, out1, Err(e)),
            Ok(es) => {
                proof {
                    assert(decreases_to!(s => s.last()));
                    assert(decreases_to!(s.last() => s.last().1));
                }
                let (env2, out2, r2) = spec_eval(s.last().1, env1, out1);
                match r2 {
                    Err(e) => (env2, out2, Err(e)),
                    Ok(v) => (env2, out2, Ok(es.push((s.last().0, v)))),
                }
            },
        }
    }
}

/// Evaluate one expression against the environment, appending what Print
/// emits to `out`; exactly what [`spec_eval`] says, including which error
/// comes back on which input and which effects an error leaves behind.
pub fn execute_expression(
    expression: &AstNode,
    state: &mut Environment,
    out: &mut Vec<ExecuteOutput>,
) -> (r: Result<ExecuteOutput, EvalError>)
    requires
        old(state).wf(),
    ensures
        final(state).wf(),
        ({
            let (senv, sout, sres) = spec_eval(
                expression@,
                old(state)@,
                ExecuteOutput::seq_val(old(out)@),
            );
            final(state)@ == senv && ExecuteOutput::seq_val(final(out)@) == sout && res_view(r)
                == sres
        }),
    decreases *expression,
{
    match expression {
        AstNode::Numeric(val) => Ok(ExecuteOutput::Numeric(*val)),
        AstNode::String(val) => Ok(ExecuteOutput::String(val.clone())),
        AstNode::Array(vals) => {
            proof {
                assert(*expression == AstNode::Array(*vals));
                assert(decreases_to!(AstNode::Array(*vals) => *vals));
            }
            unwrap_array(vals, state, out)
        },
        AstNode::Dictionary(dict) => {
            proof {
                assert(*expression == AstNode::Dictionary(*dict));
                assert(decreases_to!(AstNode::Dictionary(*dict) => *dict));
            }
            unwrap_dictionary(dict, state, out)
        },
        AstNode::Variable(var) => unwrap_variable(var, state),
        AstNode::GlobalVar { variable, expression: expr } => {
            let mut copy_state = state.snapshot();
            let result = execute_expression(expr, &mut copy_state, out);
            match result {
                Ok(value) => {
                    state.insert(variable.clone(), value);
                    Ok(ExecuteOutput::Null)
                },
                Err(e) => Err(e),
            }
        },
        AstNode::DyadicOp { verb, lhs, rhs } => {
            let lhs_value = match execute_expression(lhs, state, out) {
                Ok(v) => v,
                Err(e) => {
                    return Err(e);
                },
            };
            let rhs_value = match execute_expression(rhs, state, out) {
                Ok(v) => v,
                Err(e) => {
                    return Err(e);
                },
            };
            execute_dyadic_op(*verb, lhs_value, rhs_value)
        },
        AstNode::MonadicOp { verb, rhs } => {
            let rhs_value = match execute_expression(rhs, state, out) {
                Ok(v) => v,
                Err(e) => {
                    return Err(e);
                },
            };
            if matches!(verb, MonadicVerb::Print) {
                proof {
                    assert(out@.push(rhs_value).drop_last() =~= out@);
                }
                out.push(rhs_value);
                Ok(ExecuteOutput::Null)
            } else {
                execute_monadic_op(*verb, rhs_value)
            }
        },
        AstNode::OperatorOp { lhs_verb, operator_verb, rhs } => {
            let rhs_value = match execute_expression(rhs, state, out) {
                Ok(v) => v,
                Err(e) => {
                    return Err(e);
                },
            };
            execute_operator_op(*lhs_verb, *operator_verb, rhs_value)
        },
    }
}

} // verus!
