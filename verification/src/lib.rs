//! Evaluation engine for a small array-oriented (APL/J-style) language.
//!
//! Given an abstract syntax tree for one program line — a literal, a variable
//! reference, an assignment, or a verb application — the engine computes a
//! runtime value using array-language broadcasting semantics.  Every verb is
//! specified by a spec-level semantics function over the mathematical model
//! [`structures::Val`], and every executable entry point is proved to return
//! exactly what its semantics function says, errors included.

pub mod dyadic_access;
pub mod dyadic_add;
pub mod dyadic_divide;
pub mod dyadic_equals;
pub mod dyadic_greaterthan;
pub mod dyadic_multiply;
pub mod dyadic_replicate;
pub mod environment;
pub mod execute;
pub mod execute_dyadic;
pub mod execute_monadic;
pub mod execute_operator;
pub mod execute_unwrap;
pub mod float_bits;
pub mod laws;
pub mod operator_reduce;
pub mod parse_structures;
pub mod structures;

pub use dyadic_access::execute_access;
pub use dyadic_add::execute_add;
pub use dyadic_divide::execute_divide;
pub use dyadic_equals::execute_equals;
pub use dyadic_greaterthan::execute_greaterthan;
pub use dyadic_multiply::execute_multiply;
pub use dyadic_replicate::execute_replicate;
pub use environment::Environment;
pub use execute::execute_expression;
pub use execute_dyadic::execute_dyadic_op;
pub use execute_monadic::execute_monadic_op;
pub use execute_operator::execute_operator_op;
pub use execute_unwrap::{unwrap_array, unwrap_dictionary, unwrap_variable};
pub use operator_reduce::execute_reduce_dyadic_lhs;
pub use parse_structures::{
    dyadic_verb_from_str, monadic_verb_from_str, operator_verb_from_str, AstNode, DyadicVerb,
    MonadicVerb, OperatorVerb,
};
pub use structures::{deep_copy, EvalError, ExecuteOutput, Numeric};
