//! Evaluation of array and dictionary literals, and of variable reads.

use vstd::prelude::*;
use crate::environment::Environment;
use crate::execute::{execute_expression, spec_eval, spec_eval_entries, spec_eval_seq};
use crate::parse_structures::{group_ast_lemmas, AstNode};
use crate::structures::{deep_copy, group_val_lemmas, res_view, EvalError, ExecuteOutput, Val};

verus! {

/// Once a prefix of an array literal fails, the whole fails the same way,
/// with the same partial effects.
proof fn lemma_eval_seq_err_extend(
    s: Seq<crate::parse_structures::Ast>,
    env: Map<Seq<char>, Val>,
    out: Seq<Val>,
    i: int,
)
    requires
        0 <= i <= s.len(),
        spec_eval_seq(s.take(i), env, out).2 is Err,
    ensures
        spec_eval_seq(s, env, out) == spec_eval_seq(s.take(i), env, out),
    decreases s.len() - i,
{
    if i == s.len() {
        assert(s.take(i) =~= s);
    } else {
        assert(s.take(i + 1).drop_last() =~= s.take(i));
        lemma_eval_seq_err_extend(s, env, out, i + 1);
    }
}

/// Once a prefix of a dictionary literal fails, the whole fails the same
/// way, with the same partial effects.
proof fn lemma_eval_entries_err_extend(
    s: Seq<(Seq<char>, crate::parse_structures::Ast)>,
    env: Map<Seq<char>, Val>,
    out: Seq<Val>,
    i: int,
)
    requires
        0 <= i <= s.len(),
        spec_eval_entries(s.take(i), env, out).2 is Err,
    ensures
        spec_eval_entries(s, env, out) == spec_eval_entries(s.take(i), env, out),
    decreases s.len() - i,
{
    if i == s.len() {
        assert(s.take(i) =~= s);
    } else {
        assert(s.take(i + 1).drop_last() =~= s.take(i));
        lemma_eval_entries_err_extend(s, env, out, i + 1);
    }
}

/// Evaluate every element of an array literal, front to back, into an array
/// value.
#[verifier::loop_isolation(false)]
pub fn unwrap_array(
    vals: &Vec<AstNode>,
    state: &mut Environment,
    out: &mut Vec<ExecuteOutput>,
) -> (r: Result<ExecuteOutput, EvalError>)
    requires
        old(state).wf(),
    ensures
        final(state).wf(),
        ({
            let (senv, sout, sres) = spec_eval_seq(
                AstNode::seq_ast(vals@),
                old(state)@,
                ExecuteOutput::seq_val(old(out)@),
            );
            final(state)@ == senv && ExecuteOutput::seq_val(final(out)@) == sout && res_view(r)
                == (match sres {
                Ok(vs) => Ok(Val::Array(vs)),
                Err(e) => Err::<Val, EvalError>(e),
            })
        }),
    decreases *vals,
{
    broadcast use group_val_lemmas, group_ast_lemmas;

    let ghost sa = AstNode::seq_ast(vals@);
    let ghost env0 = old(state)@;
    let ghost out0 = ExecuteOutput::seq_val(old(out)@);
    let mut array: Vec<ExecuteOutput> = Vec::new();
    let mut i: usize = 0;
    proof {
        assert(sa.take(0) =~= Seq::<crate::parse_structures::Ast>::empty());
    }
    while i < vals.len()
        invariant
            0 <= i <= vals.len(),
            state.wf(),
            spec_eval_seq(sa.take(i as int), env0, out0) == (
                state@,
                ExecuteOutput::seq_val(out@),
                Ok::<Seq<Val>, EvalError>(ExecuteOutput::seq_val(array@)),
            ),
        decreases vals.len() - i,
    {
        proof {
            assert(decreases_to!(*vals => vals@));
            assert(sa.take(i + 1).drop_last() =~= sa.take(i as int));
            assert(sa.take(i + 1).last() == sa[i as int]);
        }
        let e = execute_expression(&vals[i], state, out);
        match e {
            Ok(v) => {
                proof {
                    assert(array@.push(v).drop_last() =~= array@);
                }
                array.push(v);
            },
            Err(err) => {
                proof {
                    lemma_eval_seq_err_extend(sa, env0, out0, i + 1);
                }
                return Err(err);
            },
        }
        i = i + 1;
    }
    proof {
        assert(sa.take(i as int) =~= sa);
    }
    Ok(ExecuteOutput::Array(array))
}

/// Evaluate every value of a dictionary literal, in entry order, into a
/// dictionary value.
#[verifier::loop_isolation(false)]
pub fn unwrap_dictionary(
    dict: &Vec<(String, AstNode)>,
    state: &mut Environment,
    out: &mut Vec<ExecuteOutput>,
) -> (r: Result<ExecuteOutput, EvalError>)
    requires
        old(state).wf(),
    ensures
        final(state).wf(),
        ({
            let (senv, sout, sres) = spec_eval_entries(
                AstNode::entries_ast(dict@),
                old(state)@,
                ExecuteOutput::seq_val(old(out)@),
            );
            final(state)@ == senv && ExecuteOutput::seq_val(final(out)@) == sout && res_view(r)
                == (match sres {
                Ok(es) => Ok(Val::Dictionary(es)),
                Err(e) => Err::<Val, EvalError>(e),
            })
        }),
    decreases *dict,
{
    broadcast use group_val_lemmas, group_ast_lemmas;

    let ghost sa = AstNode::entries_ast(dict@);
    let ghost env0 = old(state)@;
    let ghost out0 = ExecuteOutput::seq_val(old(out)@);
    let mut unwrapped_dict: Vec<(String, ExecuteOutput)> = Vec::new();
    let mut i: usize = 0;
    proof {
        assert(sa.take(0) =~= Seq::<(Seq<char>, crate::parse_structures::Ast)>::empty());
    }
    while i < dict.len()
        invariant
            0 <= i <= dict.len(),
            state.wf(),
            spec_eval_entries(sa.take(i as int), env0, out0) == (
                state@,
                ExecuteOutput::seq_val(out@),
                Ok::<Seq<(Seq<char>, Val)>, EvalError>(
                    ExecuteOutput::entries_val(unwrapped_dict@),
                ),
            ),
        decreases dict.len() - i,
    {
        proof {
            assert(decreases_to!(*dict => dict@));
            assert(decreases_to!(dict@ => dict@[i as int]));
            assert(decreases_to!(dict@[i as int] => dict@[i as int].1));
            assert(sa.take(i + 1).drop_last() =~= sa.take(i as int));
            assert(sa.take(i + 1).last() == sa[i as int]);
        }
        let key = dict[i].0.clone();
        let e = execute_expression(&dict[i].1, state, out);
        match e {
            Ok(v) => {
                proof {
                    assert(unwrapped_dict@.push((key, v)).drop_last() =~= unwrapped_dict@);
                }
                unwrapped_dict.push((key, v));
            },
            Err(err) => {
                proof {
                    lemma_eval_entries_err_extend(sa, env0, out0, i + 1);
                }
                return Err(err);
            },
        }
        i = i + 1;
    }
    proof {
        assert(sa.take(i as int) =~= sa);
    }
    Ok(ExecuteOutput::Dictionary(unwrapped_dict))
}

/// A variable read: a deep copy of the stored value, so no aliasing survives
/// the lookup; a name the environment lacks is an error.
pub fn unwrap_variable(var: &String, state: &Environment) -> (r: Result<ExecuteOutput, EvalError>)
    requires
        state.wf(),
    ensures
        res_view(r) == (if state@.contains_key(var@) {
            Ok::<Val, EvalError>(state@[var@])
        } else {
            Err::<Val, EvalError>(EvalError::UndefinedVariable)
        }),
{
    match state.lookup(var) {
        Some(value) => Ok(deep_copy(value)),
        None => Err(EvalError::UndefinedVariable),
    }
}

} // verus!
