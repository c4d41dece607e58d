//! The verb spelling tables.

use array_lang::{
    dyadic_verb_from_str, monadic_verb_from_str, operator_verb_from_str, DyadicVerb, MonadicVerb,
    OperatorVerb,
};

#[test]
fn dyadic_verb_spellings() {
    assert_eq!(dyadic_verb_from_str("+"), Some(DyadicVerb::Add));
    assert_eq!(dyadic_verb_from_str("-"), Some(DyadicVerb::Subtract));
    assert_eq!(dyadic_verb_from_str("/"), Some(DyadicVerb::Replicate));
    assert_eq!(dyadic_verb_from_str(">"), Some(DyadicVerb::GreaterThan));
    assert_eq!(dyadic_verb_from_str("÷"), Some(DyadicVerb::Divide));
    assert_eq!(dyadic_verb_from_str("×"), Some(DyadicVerb::Multiply));
    assert_eq!(dyadic_verb_from_str("."), Some(DyadicVerb::Access));
    assert_eq!(dyadic_verb_from_str("="), Some(DyadicVerb::Equals));
}

#[test]
fn unknown_dyadic_spelling_is_none() {
    assert_eq!(dyadic_verb_from_str("?"), None);
    assert_eq!(dyadic_verb_from_str(""), None);
    assert_eq!(dyadic_verb_from_str("++"), None);
}

#[test]
fn monadic_verb_spellings() {
    assert_eq!(monadic_verb_from_str("print"), Some(MonadicVerb::Print));
    assert_eq!(monadic_verb_from_str("⍳"), Some(MonadicVerb::Generate));
    assert_eq!(monadic_verb_from_str("⍴"), Some(MonadicVerb::Shape));
    assert_eq!(monadic_verb_from_str("p"), None);
}

#[test]
fn operator_verb_spellings() {
    assert_eq!(operator_verb_from_str("/"), Some(OperatorVerb::Reduce));
    assert_eq!(operator_verb_from_str("\\"), None);
}
