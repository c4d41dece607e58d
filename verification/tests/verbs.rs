//! The dyadic verbs, exercised on concrete values.

use array_lang::{
    execute_access, execute_add, execute_divide, execute_dyadic_op, execute_equals,
    execute_greaterthan, execute_multiply, execute_replicate, DyadicVerb, EvalError,
    ExecuteOutput, Numeric,
};

fn int_val(i: i64) -> ExecuteOutput {
    ExecuteOutput::Numeric(Numeric::Int(i))
}

fn float_val(x: f64) -> ExecuteOutput {
    ExecuteOutput::Numeric(Numeric::Float(x.to_bits()))
}

fn text(t: &str) -> ExecuteOutput {
    ExecuteOutput::String(t.to_string())
}

fn arr(v: Vec<ExecuteOutput>) -> ExecuteOutput {
    ExecuteOutput::Array(v)
}

fn dict(pairs: Vec<(&str, ExecuteOutput)>) -> ExecuteOutput {
    ExecuteOutput::Dictionary(pairs.into_iter().map(|(k, v)| (k.to_string(), v)).collect())
}

#[test]
fn add_arrays_elementwise() {
    let a = arr(vec![int_val(1), int_val(2)]);
    let b = arr(vec![int_val(3), int_val(4)]);
    assert_eq!(execute_add(&a, &b), Ok(arr(vec![int_val(4), int_val(6)])));
}

#[test]
fn add_scalar_broadcasts_from_either_side() {
    let a = arr(vec![int_val(1), int_val(2), int_val(3)]);
    let s = int_val(10);
    assert_eq!(execute_add(&a, &s), Ok(arr(vec![int_val(11), int_val(12), int_val(13)])));
    assert_eq!(execute_add(&s, &a), Ok(arr(vec![int_val(11), int_val(12), int_val(13)])));
}

fn expected_nested_add() -> ExecuteOutput {
    arr(vec![arr(vec![int_val(11), int_val(12)]), int_val(13)])
}

#[test]
fn add_broadcasts_into_nested_arrays() {
    let a = arr(vec![arr(vec![int_val(1), int_val(2)]), int_val(3)]);
    assert_eq!(execute_add(&a, &int_val(10)), Ok(expected_nested_add()));
}

#[test]
fn add_arrays_of_different_lengths_is_shape_mismatch() {
    let a = arr(vec![int_val(1), int_val(2)]);
    let b = arr(vec![int_val(3)]);
    assert_eq!(execute_add(&a, &b), Err(EvalError::ShapeMismatch));
}

#[test]
fn add_string_and_number_is_unsupported() {
    assert_eq!(execute_add(&text("a"), &int_val(1)), Err(EvalError::UnsupportedOperands));
}

#[test]
fn add_int_overflow_wraps() {
    assert_eq!(execute_add(&int_val(i64::MAX), &int_val(1)), Ok(int_val(i64::MIN)));
}

#[test]
fn add_floats_is_ieee() {
    assert_eq!(execute_add(&float_val(1.5), &float_val(2.25)), Ok(float_val(3.75)));
}

#[test]
fn add_mixed_int_and_float_scalars_is_unsupported() {
    assert_eq!(execute_add(&int_val(1), &float_val(1.0)), Err(EvalError::UnsupportedOperands));
}

#[test]
fn add_dictionaries_zips_by_key() {
    let a = dict(vec![("a", int_val(1)), ("b", int_val(2))]);
    let b = dict(vec![("b", int_val(20)), ("a", int_val(10))]);
    assert_eq!(
        execute_add(&a, &b),
        Ok(dict(vec![("a", int_val(11)), ("b", int_val(22))]))
    );
}

#[test]
fn add_dictionaries_with_mismatched_keys_is_key_not_found() {
    let a = dict(vec![("a", int_val(1)), ("b", int_val(2))]);
    let b = dict(vec![("a", int_val(10)), ("c", int_val(30))]);
    assert_eq!(execute_add(&a, &b), Err(EvalError::KeyNotFound));
}

#[test]
fn add_dictionaries_of_different_sizes_is_shape_mismatch() {
    let a = dict(vec![("a", int_val(1))]);
    let b = dict(vec![("a", int_val(1)), ("b", int_val(2))]);
    assert_eq!(execute_add(&a, &b), Err(EvalError::ShapeMismatch));
}

#[test]
fn multiply_arrays_elementwise() {
    let a = arr(vec![int_val(2), int_val(3)]);
    let b = arr(vec![int_val(4), int_val(5)]);
    assert_eq!(execute_multiply(&a, &b), Ok(arr(vec![int_val(8), int_val(15)])));
}

#[test]
fn multiply_floats_is_ieee() {
    assert_eq!(execute_multiply(&float_val(1.5), &float_val(2.0)), Ok(float_val(3.0)));
}

#[test]
fn multiply_dictionaries_zips_by_key() {
    let a = dict(vec![("a", int_val(2)), ("b", int_val(3))]);
    let b = dict(vec![("a", int_val(10)), ("b", int_val(20))]);
    assert_eq!(
        execute_multiply(&a, &b),
        Ok(dict(vec![("a", int_val(20)), ("b", int_val(60))]))
    );
}

#[test]
fn multiply_int_overflow_wraps() {
    assert_eq!(execute_multiply(&int_val(i64::MAX), &int_val(2)), Ok(int_val(-2)));
}

#[test]
fn divide_ints_always_yields_float() {
    assert_eq!(execute_divide(&int_val(6), &int_val(3)), Ok(float_val(2.0)));
}

#[test]
fn divide_floats_is_ieee() {
    assert_eq!(execute_divide(&float_val(1.0), &float_val(2.0)), Ok(float_val(0.5)));
}

#[test]
fn divide_by_zero_follows_ieee() {
    assert_eq!(execute_divide(&int_val(1), &int_val(0)), Ok(float_val(f64::INFINITY)));
    assert_eq!(execute_divide(&int_val(-1), &int_val(0)), Ok(float_val(f64::NEG_INFINITY)));
}

#[test]
fn zero_over_zero_is_nan_and_nan_equals_nothing() {
    let nan = execute_divide(&int_val(0), &int_val(0)).unwrap();
    assert_eq!(execute_equals(&nan, &nan), Ok(int_val(0)));
}

#[test]
fn divide_array_by_scalar_broadcasts() {
    let a = arr(vec![int_val(1), int_val(2)]);
    assert_eq!(execute_divide(&a, &int_val(2)), Ok(arr(vec![float_val(0.5), float_val(1.0)])));
}

#[test]
fn divide_scalar_by_array_is_unsupported() {
    let a = arr(vec![int_val(1), int_val(2)]);
    assert_eq!(execute_divide(&int_val(2), &a), Err(EvalError::UnsupportedOperands));
}

#[test]
fn divide_dictionary_by_scalar_broadcasts_over_values() {
    let d = dict(vec![("a", int_val(1)), ("b", int_val(3))]);
    assert_eq!(
        execute_divide(&d, &int_val(2)),
        Ok(dict(vec![("a", float_val(0.5)), ("b", float_val(1.5))]))
    );
}

#[test]
fn divide_arrays_elementwise() {
    let a = arr(vec![int_val(6), int_val(9)]);
    let b = arr(vec![int_val(3), int_val(3)]);
    assert_eq!(execute_divide(&a, &b), Ok(arr(vec![float_val(2.0), float_val(3.0)])));
}

#[test]
fn greaterthan_scalars_is_boolean_as_int() {
    assert_eq!(execute_greaterthan(&int_val(3), &int_val(2)), Ok(int_val(1)));
    assert_eq!(execute_greaterthan(&int_val(2), &int_val(3)), Ok(int_val(0)));
    assert_eq!(execute_greaterthan(&float_val(2.5), &float_val(1.5)), Ok(int_val(1)));
    assert_eq!(execute_greaterthan(&float_val(1.5), &float_val(2.5)), Ok(int_val(0)));
}

#[test]
fn greaterthan_array_against_scalar() {
    let a = arr(vec![int_val(1), int_val(5), int_val(3)]);
    assert_eq!(
        execute_greaterthan(&a, &int_val(2)),
        Ok(arr(vec![int_val(0), int_val(1), int_val(1)]))
    );
}

#[test]
fn greaterthan_scalar_against_array_is_unsupported() {
    let a = arr(vec![int_val(1), int_val(5)]);
    assert_eq!(execute_greaterthan(&int_val(2), &a), Err(EvalError::UnsupportedOperands));
}

#[test]
fn equals_scalars() {
    assert_eq!(execute_equals(&int_val(5), &int_val(5)), Ok(int_val(1)));
    assert_eq!(execute_equals(&int_val(5), &int_val(6)), Ok(int_val(0)));
}

#[test]
fn equals_int_never_equals_float() {
    assert_eq!(execute_equals(&int_val(5), &float_val(5.0)), Ok(int_val(0)));
}

#[test]
fn equals_array_against_scalar() {
    let a = arr(vec![int_val(1), int_val(2), int_val(3)]);
    assert_eq!(execute_equals(&a, &int_val(2)), Ok(arr(vec![int_val(0), int_val(1), int_val(0)])));
}

#[test]
fn equals_arrays_elementwise() {
    let a = arr(vec![int_val(1), int_val(2), int_val(3)]);
    let b = arr(vec![int_val(1), int_val(0), int_val(3)]);
    assert_eq!(execute_equals(&a, &b), Ok(arr(vec![int_val(1), int_val(0), int_val(1)])));
}

#[test]
fn equals_array_with_non_scalar_element_is_type_mismatch() {
    let a = arr(vec![int_val(1), text("x")]);
    assert_eq!(execute_equals(&a, &int_val(1)), Err(EvalError::TypeMismatch));
}

#[test]
fn equals_dictionary_against_scalar() {
    let d = dict(vec![("a", int_val(1)), ("b", int_val(3))]);
    assert_eq!(
        execute_equals(&d, &int_val(1)),
        Ok(dict(vec![("a", int_val(1)), ("b", int_val(0))]))
    );
}

#[test]
fn equals_scalar_against_dictionary() {
    let d = dict(vec![("a", int_val(1)), ("b", int_val(3))]);
    assert_eq!(
        execute_equals(&int_val(3), &d),
        Ok(dict(vec![("a", int_val(0)), ("b", int_val(1))]))
    );
}

#[test]
fn replicate_repeats_by_multiplicity() {
    let counts = arr(vec![int_val(2), int_val(0), int_val(1)]);
    let values = arr(vec![text("a"), text("b"), text("c")]);
    assert_eq!(
        execute_replicate(&counts, &values),
        Ok(arr(vec![text("a"), text("a"), text("c")]))
    );
}

#[test]
fn replicate_negative_multiplicity_is_invalid() {
    let counts = arr(vec![int_val(1), int_val(-1)]);
    let values = arr(vec![int_val(10), int_val(20)]);
    assert_eq!(execute_replicate(&counts, &values), Err(EvalError::InvalidMultiplicity));
}

#[test]
fn replicate_non_int_multiplicity_is_type_mismatch() {
    let counts = arr(vec![float_val(1.0)]);
    let values = arr(vec![int_val(10)]);
    assert_eq!(execute_replicate(&counts, &values), Err(EvalError::TypeMismatch));
}

#[test]
fn replicate_length_mismatch_is_shape_mismatch() {
    let counts = arr(vec![int_val(1)]);
    let values = arr(vec![int_val(10), int_val(20)]);
    assert_eq!(execute_replicate(&counts, &values), Err(EvalError::ShapeMismatch));
}

#[test]
fn replicate_of_scalars_is_unsupported() {
    assert_eq!(execute_replicate(&int_val(2), &int_val(3)), Err(EvalError::UnsupportedOperands));
}

#[test]
fn access_with_index_array_gathers() {
    let a = arr(vec![int_val(10), int_val(20), int_val(30)]);
    let idx = arr(vec![int_val(2), int_val(0)]);
    assert_eq!(execute_access(&a, &idx), Ok(arr(vec![int_val(30), int_val(10)])));
}

#[test]
fn access_with_single_index_unwraps_the_element() {
    let a = arr(vec![int_val(10), int_val(20), int_val(30)]);
    assert_eq!(execute_access(&a, &int_val(1)), Ok(int_val(20)));
}

#[test]
fn access_out_of_range_index_is_out_of_bounds() {
    let a = arr(vec![int_val(10), int_val(20)]);
    assert_eq!(execute_access(&a, &int_val(5)), Err(EvalError::IndexOutOfBounds));
    assert_eq!(execute_access(&a, &int_val(-1)), Err(EvalError::IndexOutOfBounds));
    let idx = arr(vec![int_val(0), int_val(9)]);
    assert_eq!(execute_access(&a, &idx), Err(EvalError::IndexOutOfBounds));
}

#[test]
fn access_with_float_index_is_type_mismatch() {
    let a = arr(vec![int_val(10), int_val(20)]);
    assert_eq!(execute_access(&a, &float_val(1.0)), Err(EvalError::TypeMismatch));
}

#[test]
fn access_projects_a_key_out_of_every_dictionary() {
    let a = arr(vec![dict(vec![("a", int_val(1))]), dict(vec![("a", int_val(2))])]);
    assert_eq!(execute_access(&a, &text("a")), Ok(arr(vec![int_val(1), int_val(2)])));
}

#[test]
fn access_projection_over_non_dictionaries_is_type_mismatch() {
    let a = arr(vec![dict(vec![("a", int_val(1))]), int_val(7)]);
    assert_eq!(execute_access(&a, &text("a")), Err(EvalError::TypeMismatch));
}

#[test]
fn access_dictionary_key_lookup() {
    let d = dict(vec![("a", int_val(1)), ("b", int_val(2))]);
    assert_eq!(execute_access(&d, &text("b")), Ok(int_val(2)));
    assert_eq!(execute_access(&d, &text("c")), Err(EvalError::KeyNotFound));
}

#[test]
fn subtract_is_not_implemented() {
    assert_eq!(
        execute_dyadic_op(DyadicVerb::Subtract, int_val(3), int_val(1)),
        Err(EvalError::OperatorNotImplemented)
    );
}

#[test]
fn equals_floats_is_ieee_negative_zero_equals_zero() {
    assert_eq!(execute_equals(&float_val(2.5), &float_val(2.5)), Ok(int_val(1)));
    assert_eq!(execute_equals(&float_val(2.5), &float_val(2.0)), Ok(int_val(0)));
    assert_eq!(execute_equals(&float_val(-0.0), &float_val(0.0)), Ok(int_val(1)));
}

#[test]
fn greaterthan_floats_respects_the_sign() {
    assert_eq!(execute_greaterthan(&float_val(-1.0), &float_val(1.0)), Ok(int_val(0)));
    assert_eq!(execute_greaterthan(&float_val(1.0), &float_val(-1.0)), Ok(int_val(1)));
}

#[test]
fn cross_variant_ordering_follows_the_variant_order() {
    assert_eq!(execute_greaterthan(&int_val(5), &float_val(0.5)), Ok(int_val(0)));
    assert_eq!(execute_greaterthan(&float_val(0.5), &int_val(5)), Ok(int_val(1)));
}
