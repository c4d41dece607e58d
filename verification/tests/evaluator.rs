//! The evaluator, the environment and the monadic verbs, end to end.

use array_lang::{
    execute_expression, execute_monadic_op, execute_reduce_dyadic_lhs, AstNode, DyadicVerb,
    Environment, EvalError, ExecuteOutput, MonadicVerb, Numeric, OperatorVerb,
};

fn int_val(i: i64) -> ExecuteOutput {
    ExecuteOutput::Numeric(Numeric::Int(i))
}

fn float_val(x: f64) -> ExecuteOutput {
    ExecuteOutput::Numeric(Numeric::Float(x.to_bits()))
}

fn arr(v: Vec<ExecuteOutput>) -> ExecuteOutput {
    ExecuteOutput::Array(v)
}

fn num_node(i: i64) -> AstNode {
    AstNode::Numeric(Numeric::Int(i))
}

fn array_node(v: Vec<AstNode>) -> AstNode {
    AstNode::Array(v)
}

fn assign(name: &str, expr: AstNode) -> AstNode {
    AstNode::GlobalVar { variable: name.to_string(), expression: Box::new(expr) }
}

fn read(name: &str) -> AstNode {
    AstNode::Variable(name.to_string())
}

fn eval(
    node: &AstNode,
    state: &mut Environment,
    out: &mut Vec<ExecuteOutput>,
) -> Result<ExecuteOutput, EvalError> {
    execute_expression(node, state, out)
}

#[test]
fn assignment_round_trip_returns_the_stored_value() {
    let mut state = Environment::new();
    let mut out = Vec::new();
    let node = assign("x", array_node(vec![num_node(1), num_node(2), num_node(3)]));
    assert_eq!(eval(&node, &mut state, &mut out), Ok(ExecuteOutput::Null));
    let got = eval(&read("x"), &mut state, &mut out).unwrap();
    assert_eq!(got, arr(vec![int_val(1), int_val(2), int_val(3)]));
}

#[test]
fn mutating_the_returned_copy_does_not_affect_the_store() {
    let mut state = Environment::new();
    let mut out = Vec::new();
    let node = assign("x", array_node(vec![num_node(1), num_node(2), num_node(3)]));
    eval(&node, &mut state, &mut out).unwrap();
    let got = eval(&read("x"), &mut state, &mut out).unwrap();
    if let ExecuteOutput::Array(mut elems) = got {
        elems.push(int_val(99));
    } else {
        panic!("expected an array");
    }
    let again = eval(&read("x"), &mut state, &mut out).unwrap();
    assert_eq!(again, arr(vec![int_val(1), int_val(2), int_val(3)]));
}

#[test]
fn two_reads_of_an_unchanged_variable_are_equal() {
    let mut state = Environment::new();
    let mut out = Vec::new();
    eval(&assign("x", num_node(42)), &mut state, &mut out).unwrap();
    let first = eval(&read("x"), &mut state, &mut out).unwrap();
    let second = eval(&read("x"), &mut state, &mut out).unwrap();
    assert_eq!(first, second);
}

#[test]
fn reading_an_unassigned_variable_is_an_error() {
    let mut state = Environment::new();
    let mut out = Vec::new();
    assert_eq!(eval(&read("nope"), &mut state, &mut out), Err(EvalError::UndefinedVariable));
}

#[test]
fn reassignment_replaces_the_value_whole() {
    let mut state = Environment::new();
    let mut out = Vec::new();
    eval(&assign("x", num_node(1)), &mut state, &mut out).unwrap();
    eval(&assign("x", array_node(vec![num_node(7)])), &mut state, &mut out).unwrap();
    let got = eval(&read("x"), &mut state, &mut out).unwrap();
    assert_eq!(got, arr(vec![int_val(7)]));
}

#[test]
fn nested_assignments_are_invisible_outside() {
    let mut state = Environment::new();
    let mut out = Vec::new();
    let inner = assign("y", num_node(1));
    let node = assign("x", array_node(vec![inner]));
    assert_eq!(eval(&node, &mut state, &mut out), Ok(ExecuteOutput::Null));
    assert_eq!(
        eval(&read("x"), &mut state, &mut out),
        Ok(arr(vec![ExecuteOutput::Null]))
    );
    assert_eq!(eval(&read("y"), &mut state, &mut out), Err(EvalError::UndefinedVariable));
}

#[test]
fn dyadic_application_evaluates_both_sides() {
    let mut state = Environment::new();
    let mut out = Vec::new();
    eval(&assign("x", array_node(vec![num_node(1), num_node(2)])), &mut state, &mut out).unwrap();
    let node = AstNode::DyadicOp {
        verb: DyadicVerb::Add,
        lhs: Box::new(read("x")),
        rhs: Box::new(num_node(10)),
    };
    assert_eq!(eval(&node, &mut state, &mut out), Ok(arr(vec![int_val(11), int_val(12)])));
}

#[test]
fn print_returns_null_and_emits_the_value() {
    let mut state = Environment::new();
    let mut out = Vec::new();
    let node = AstNode::MonadicOp { verb: MonadicVerb::Print, rhs: Box::new(num_node(7)) };
    assert_eq!(eval(&node, &mut state, &mut out), Ok(ExecuteOutput::Null));
    assert_eq!(out, vec![int_val(7)]);
}

#[test]
fn generate_builds_iota() {
    assert_eq!(
        execute_monadic_op(MonadicVerb::Generate, int_val(4)),
        Ok(arr(vec![int_val(0), int_val(1), int_val(2), int_val(3)]))
    );
}

#[test]
fn generate_of_zero_is_the_empty_array() {
    assert_eq!(execute_monadic_op(MonadicVerb::Generate, int_val(0)), Ok(arr(vec![])));
}

#[test]
fn generate_of_a_negative_count_is_the_empty_array() {
    assert_eq!(execute_monadic_op(MonadicVerb::Generate, int_val(-3)), Ok(arr(vec![])));
}

#[test]
fn generate_of_a_non_int_is_unsupported() {
    assert_eq!(
        execute_monadic_op(MonadicVerb::Generate, float_val(2.0)),
        Err(EvalError::UnsupportedOperands)
    );
}

#[test]
fn shape_of_an_array_is_its_length() {
    let a = arr(vec![int_val(1), int_val(2), int_val(3)]);
    assert_eq!(execute_monadic_op(MonadicVerb::Shape, a), Ok(int_val(3)));
}

#[test]
fn shape_of_a_scalar_is_unsupported() {
    assert_eq!(
        execute_monadic_op(MonadicVerb::Shape, int_val(3)),
        Err(EvalError::UnsupportedOperands)
    );
}

#[test]
fn reduce_add_sums_the_array() {
    let a = arr(vec![int_val(1), int_val(2), int_val(3), int_val(4)]);
    assert_eq!(execute_reduce_dyadic_lhs(DyadicVerb::Add, a), Ok(int_val(10)));
}

#[test]
fn reduce_multiply_multiplies_the_array() {
    let a = arr(vec![int_val(1), int_val(2), int_val(3), int_val(4)]);
    assert_eq!(execute_reduce_dyadic_lhs(DyadicVerb::Multiply, a), Ok(int_val(24)));
}

#[test]
fn reduce_add_of_nested_arrays_sums_elementwise() {
    let a = arr(vec![arr(vec![int_val(1), int_val(2)]), arr(vec![int_val(3), int_val(4)])]);
    assert_eq!(
        execute_reduce_dyadic_lhs(DyadicVerb::Add, a),
        Ok(arr(vec![int_val(4), int_val(6)]))
    );
}

#[test]
fn reduce_add_of_floats_uses_the_float_identity() {
    let a = arr(vec![float_val(1.5), float_val(2.0)]);
    assert_eq!(execute_reduce_dyadic_lhs(DyadicVerb::Add, a), Ok(float_val(3.5)));
}

#[test]
fn reduce_of_an_empty_array_is_an_error() {
    assert_eq!(
        execute_reduce_dyadic_lhs(DyadicVerb::Add, arr(vec![])),
        Err(EvalError::EmptyReduce)
    );
}

#[test]
fn reduce_over_an_unsupported_verb_is_not_implemented() {
    let a = arr(vec![int_val(1), int_val(2)]);
    assert_eq!(
        execute_reduce_dyadic_lhs(DyadicVerb::GreaterThan, a),
        Err(EvalError::OperatorNotImplemented)
    );
}

#[test]
fn reduce_of_a_scalar_is_unsupported() {
    assert_eq!(
        execute_reduce_dyadic_lhs(DyadicVerb::Add, int_val(3)),
        Err(EvalError::UnsupportedOperands)
    );
}

#[test]
fn reduce_over_strings_has_no_identity() {
    let a = arr(vec![ExecuteOutput::String("a".to_string())]);
    assert_eq!(
        execute_reduce_dyadic_lhs(DyadicVerb::Add, a),
        Err(EvalError::UnsupportedOperands)
    );
}

#[test]
fn operator_application_routes_to_reduce() {
    let mut state = Environment::new();
    let mut out = Vec::new();
    let node = AstNode::OperatorOp {
        lhs_verb: DyadicVerb::Add,
        operator_verb: OperatorVerb::Reduce,
        rhs: Box::new(array_node(vec![num_node(5), num_node(6)])),
    };
    assert_eq!(eval(&node, &mut state, &mut out), Ok(int_val(11)));
}

#[test]
fn dictionary_literal_keeps_entry_order_and_values() {
    let mut state = Environment::new();
    let mut out = Vec::new();
    let node = AstNode::Dictionary(vec![
        ("a".to_string(), num_node(1)),
        ("b".to_string(), num_node(2)),
    ]);
    let got = eval(&node, &mut state, &mut out).unwrap();
    assert_eq!(
        got,
        ExecuteOutput::Dictionary(vec![
            ("a".to_string(), int_val(1)),
            ("b".to_string(), int_val(2)),
        ])
    );
}

#[test]
fn string_literal_evaluates_to_a_string() {
    let mut state = Environment::new();
    let mut out = Vec::new();
    let node = AstNode::String("hello".to_string());
    assert_eq!(
        eval(&node, &mut state, &mut out),
        Ok(ExecuteOutput::String("hello".to_string()))
    );
}

#[test]
fn print_inside_an_assignment_still_emits() {
    let mut state = Environment::new();
    let mut out = Vec::new();
    let node = assign(
        "x",
        AstNode::MonadicOp { verb: MonadicVerb::Print, rhs: Box::new(num_node(9)) },
    );
    assert_eq!(eval(&node, &mut state, &mut out), Ok(ExecuteOutput::Null));
    assert_eq!(out, vec![int_val(9)]);
}
