//! Runtime values of the language, their mathematical model, and the error
//! taxonomy shared by every evaluator component.

use vstd::prelude::*;
use crate::float_bits::{
    f64_add_bits, f64_eq_bits, f64_gt_bits, f64_mul_bits, float_add, float_eq, float_gt,
    float_mul,
};

verus! {

/// A scalar number: a 64-bit signed integer or a 64-bit IEEE-754 double.
///
/// The float variant carries the raw bit pattern of the double, so that the
/// structural parts of the engine stay in the integer domain; arithmetic on
/// the patterns is delegated to `float_bits`.
#[derive(Debug, Clone, Copy, PartialEq, Eq, Structural)]
pub enum Numeric {
    Int(i64),
    Float(u64),
}

/// A runtime value: the result of evaluating an expression.
///
/// Copying is by [`deep_copy`], whose contract states that the copy has the
/// same model as the original.
#[derive(Debug, PartialEq)]
pub enum ExecuteOutput {
    /// Ordered sequence of arbitrary values.
    Array(Vec<ExecuteOutput>),
    /// String-keyed collection of arbitrary values.  The parser hands the
    /// engine unique keys; the entry order is kept, and a lookup takes the
    /// first entry with the key.
    Dictionary(Vec<(String, ExecuteOutput)>),
    /// Scalar number.
    Numeric(Numeric),
    /// General string.
    String(String),
    Null,
}

/// Mathematical model of a runtime value.
///
/// Arrays become sequences, dictionaries become sequences of key/value pairs
/// (keeping the entry order of the executable value), strings become
/// character sequences.
#[verifier::ext_equal]
pub enum Val {
    Array(Seq<Val>),
    Dictionary(Seq<(Seq<char>, Val)>),
    Numeric(Numeric),
    String(Seq<char>),
    Null,
}

impl ExecuteOutput {
    /// The model of a value.
    pub open spec fn as_val(self) -> Val
        decreases self,
    {
        match self {
            ExecuteOutput::Array(arr) => {
                proof {
                    assert(decreases_to!(self => arr));
                    assert(decreases_to!(arr => arr@));
                }
                Val::Array(Self::seq_val(arr@))
            },
            ExecuteOutput::Dictionary(entries) => {
                proof {
                    assert(decreases_to!(self => entries));
                    assert(decreases_to!(entries => entries@));
                }
                Val::Dictionary(Self::entries_val(entries@))
            },
            ExecuteOutput::Numeric(n) => Val::Numeric(n),
            ExecuteOutput::String(s) => Val::String(s@),
            ExecuteOutput::Null => Val::Null,
        }
    }

    /// The models of the elements of an array, in order.
    pub open spec fn seq_val(s: Seq<ExecuteOutput>) -> Seq<Val>
        decreases s,
    {
        if s.len() == 0 {
            Seq::empty()
        } else {
            Self::seq_val(s.drop_last()).push(s.last().as_val())
        }
    }

    /// The models of the entries of a dictionary, in order.
    pub open spec fn entries_val(s: Seq<(String, ExecuteOutput)>) -> Seq<(Seq<char>, Val)>
        decreases s,
    {
        if s.len() == 0 {
            Seq::empty()
        } else {
            Self::entries_val(s.drop_last()).push((s.last().0@, s.last().1.as_val()))
        }
    }
}

impl View for ExecuteOutput {
    type V = Val;

    open spec fn view(&self) -> Val {
        self.as_val()
    }
}

/// The model of an array is as long as the array and models it elementwise.
pub broadcast proof fn lemma_seq_val_index(s: Seq<ExecuteOutput>)
    ensures
        (#[trigger] ExecuteOutput::seq_val(s)).len() == s.len(),
        forall|i: int| 0 <= i < s.len() ==> ExecuteOutput::seq_val(s)[i] == s[i].as_val(),
    decreases s,
{
    if s.len() > 0 {
        lemma_seq_val_index(s.drop_last());
    }
}

/// The model of a dictionary is as long as the dictionary and models its
/// entries pairwise.
pub broadcast proof fn lemma_entries_val_index(s: Seq<(String, ExecuteOutput)>)
    ensures
        (#[trigger] ExecuteOutput::entries_val(s)).len() == s.len(),
        forall|i: int|
            0 <= i < s.len() ==> ExecuteOutput::entries_val(s)[i] == (s[i].0@, s[i].1.as_val()),
    decreases s,
{
    if s.len() > 0 {
        lemma_entries_val_index(s.drop_last());
    }
}

/// The lemmas every evaluator module uses to reason about value models.
pub broadcast group group_val_lemmas {
    lemma_seq_val_index,
    lemma_entries_val_index,
}

/// The value under the first entry of `entries` that carries `key`, if any.
pub open spec fn dict_lookup(entries: Seq<(Seq<char>, Val)>, key: Seq<char>) -> Option<Val>
    decreases entries.len(),
{
    if entries.len() == 0 {
        None
    } else if entries[0].0 == key {
        Some(entries[0].1)
    } else {
        dict_lookup(entries.drop_first(), key)
    }
}

/// Linear scan behind [`dict_lookup`]: returns a borrow of the value under
/// the first entry with `key`.
#[verifier::loop_isolation(false)]
pub fn dict_get<'a>(entries: &'a Vec<(String, ExecuteOutput)>, key: &String) -> (r: Option<
    &'a ExecuteOutput,
>)
    ensures
        match r {
            Some(v) => dict_lookup(ExecuteOutput::entries_val(entries@), key@) == Some(v@),
            None => dict_lookup(ExecuteOutput::entries_val(entries@), key@) is None,
        },
{
    broadcast use group_val_lemmas;

    let ghost model = ExecuteOutput::entries_val(entries@);
    proof {
        lemma_entries_val_index(entries@);
        assert(model.skip(0) =~= model);
    }
    let mut i: usize = 0;
    while i < entries.len()
        invariant
            0 <= i <= entries.len(),
            model == ExecuteOutput::entries_val(entries@),
            model.len() == entries@.len(),
            forall|j: int| 0 <= j < entries@.len() ==> model[j] == (entries@[j].0@, entries@[j].1.as_val()),
            dict_lookup(model, key@) == dict_lookup(model.skip(i as int), key@),
        decreases entries.len() - i,
    {
        if entries[i].0 == *key {
            proof {
                assert(model.skip(i as int)[0] == model[i as int]);
            }
            return Some(&entries[i].1);
        }
        proof {
            assert(model.skip(i as int)[0] == model[i as int]);
            assert(model.skip(i as int).drop_first() =~= model.skip(i + 1));
        }
        i = i + 1;
    }
    proof {
        assert(model.skip(i as int).len() == 0);
    }
    None
}

/// Structural copy of a value; the copy has the same model as the original,
/// so no aliasing connects the two.
#[verifier::loop_isolation(false)]
pub fn deep_copy(v: &ExecuteOutput) -> (r: ExecuteOutput)
    ensures
        r@ == v@,
    decreases v,
{
    broadcast use group_val_lemmas;

    match v {
        ExecuteOutput::Array(arr) => {
            let mut out: Vec<ExecuteOutput> = Vec::new();
            let mut i: usize = 0;
            while i < arr.len()
                invariant
                    0 <= i <= arr.len(),
                    out@.len() == i,
                    forall|j: int| 0 <= j < i ==> out@[j].as_val() == arr@[j].as_val(),
                decreases arr.len() - i,
            {
                proof {
                    assert(*v == ExecuteOutput::Array(*arr));
                    assert(decreases_to!(ExecuteOutput::Array(*arr) => *arr));
                    assert(decreases_to!(*arr => arr@));
                }
                let e = deep_copy(&arr[i]);
                out.push(e);
                i = i + 1;
            }
            proof {
                assert(ExecuteOutput::seq_val(out@) =~= ExecuteOutput::seq_val(arr@));
            }
            ExecuteOutput::Array(out)
        },
        ExecuteOutput::Dictionary(entries) => {
            let mut out: Vec<(String, ExecuteOutput)> = Vec::new();
            let mut i: usize = 0;
            while i < entries.len()
                invariant
                    0 <= i <= entries.len(),
                    out@.len() == i,
                    forall|j: int|
                        0 <= j < i ==> out@[j].0@ == entries@[j].0@ && out@[j].1.as_val()
                            == entries@[j].1.as_val(),
                decreases entries.len() - i,
            {
                proof {
                    assert(*v == ExecuteOutput::Dictionary(*entries));
                    assert(decreases_to!(ExecuteOutput::Dictionary(*entries) => *entries));
                    assert(decreases_to!(*entries => entries@));
                }
                let key = entries[i].0.clone();
                let value = deep_copy(&entries[i].1);
                out.push((key, value));
                i = i + 1;
            }
            proof {
                assert(ExecuteOutput::entries_val(out@) =~= ExecuteOutput::entries_val(entries@));
            }
            ExecuteOutput::Dictionary(out)
        },
        ExecuteOutput::Numeric(n) => ExecuteOutput::Numeric(*n),
        ExecuteOutput::String(s) => ExecuteOutput::String(s.clone()),
        ExecuteOutput::Null => ExecuteOutput::Null,
    }
}

/// Everything that can go wrong while evaluating one line.
///
/// Every failure is surfaced as a typed result rather than aborting the
/// process, so a driver can report it and decide whether to go on; the
/// language itself stops at the first failed line.
#[derive(Debug, Clone, Copy, PartialEq, Eq, Structural)]
pub enum EvalError {
    /// A verb met an operand element of a kind it does not operate on.
    TypeMismatch,
    /// A verb was invoked on an operand-variant pair it does not define.
    UnsupportedOperands,
    /// Array or dictionary lengths disagree where correspondence is required.
    ShapeMismatch,
    /// An Access index lies outside the array.
    IndexOutOfBounds,
    /// A dictionary lookup named a key that is not present.
    KeyNotFound,
    /// Replicate was given a negative multiplicity.
    InvalidMultiplicity,
    /// A variable reference named an unassigned variable.
    UndefinedVariable,
    /// The requested verb has no defined semantics here.
    OperatorNotImplemented,
    /// Reduce was applied to an empty array.
    EmptyReduce,
}

/// The model of an evaluation outcome: the model of the value on success,
/// the error unchanged on failure.
pub open spec fn res_view(r: Result<ExecuteOutput, EvalError>) -> Result<Val, EvalError> {
    match r {
        Ok(v) => Ok(v@),
        Err(e) => Err(e),
    }
}

impl Numeric {
    /// Scalar addition.  Int + Int wraps on 64-bit overflow (the behaviour of
    /// native release-mode integers); Float + Float is IEEE-754 addition;
    /// arithmetic across the two variants is not defined.
    pub open spec fn spec_add(self, other: Numeric) -> Result<Numeric, EvalError> {
        match (self, other) {
            (Numeric::Int(a), Numeric::Int(b)) => Ok(
                Numeric::Int(vstd::wrapping::i64_specs::wrapping_add(a, b)),
            ),
            (Numeric::Float(a), Numeric::Float(b)) => Ok(Numeric::Float(f64_add_bits(a, b))),
            _ => Err(EvalError::UnsupportedOperands),
        }
    }

    pub fn add(self, other: Numeric) -> (r: Result<Numeric, EvalError>)
        ensures
            r == self.spec_add(other),
    {
        match (self, other) {
            (Numeric::Int(a), Numeric::Int(b)) => Ok(Numeric::Int(a.wrapping_add(b))),
            (Numeric::Float(a), Numeric::Float(b)) => Ok(Numeric::Float(float_add(a, b))),
            _ => Err(EvalError::UnsupportedOperands),
        }
    }

    /// Scalar multiplication, with the same domain rules as addition.
    pub open spec fn spec_mul(self, other: Numeric) -> Result<Numeric, EvalError> {
        match (self, other) {
            (Numeric::Int(a), Numeric::Int(b)) => Ok(
                Numeric::Int(vstd::wrapping::i64_specs::wrapping_mul(a, b)),
            ),
            (Numeric::Float(a), Numeric::Float(b)) => Ok(Numeric::Float(f64_mul_bits(a, b))),
            _ => Err(EvalError::UnsupportedOperands),
        }
    }

    pub fn mul(self, other: Numeric) -> (r: Result<Numeric, EvalError>)
        ensures
            r == self.spec_mul(other),
    {
        match (self, other) {
            (Numeric::Int(a), Numeric::Int(b)) => Ok(Numeric::Int(a.wrapping_mul(b))),
            (Numeric::Float(a), Numeric::Float(b)) => Ok(Numeric::Float(float_mul(a, b))),
            _ => Err(EvalError::UnsupportedOperands),
        }
    }

    /// The language's ordering on scalars.  Ints compare as integers, floats
    /// in the IEEE-754 order; across the two variants every Int sorts below
    /// every Float, as the original variant order did.
    pub open spec fn spec_gt(self, other: Numeric) -> bool {
        match (self, other) {
            (Numeric::Int(a), Numeric::Int(b)) => a > b,
            (Numeric::Float(a), Numeric::Float(b)) => f64_gt_bits(a, b),
            (Numeric::Int(_), Numeric::Float(_)) => false,
            (Numeric::Float(_), Numeric::Int(_)) => true,
        }
    }

    pub fn gt(self, other: Numeric) -> (r: bool)
        ensures
            r == self.spec_gt(other),
    {
        match (self, other) {
            (Numeric::Int(a), Numeric::Int(b)) => a > b,
            (Numeric::Float(a), Numeric::Float(b)) => float_gt(a, b),
            (Numeric::Int(_), Numeric::Float(_)) => false,
            (Numeric::Float(_), Numeric::Int(_)) => true,
        }
    }

    /// The language's equality on scalars.  Ints compare as integers, floats
    /// in the IEEE-754 sense (a NaN equals nothing); an Int never equals a
    /// Float.
    pub open spec fn spec_equals(self, other: Numeric) -> bool {
        match (self, other) {
            (Numeric::Int(a), Numeric::Int(b)) => a == b,
            (Numeric::Float(a), Numeric::Float(b)) => f64_eq_bits(a, b),
            _ => false,
        }
    }

    pub fn equals(self, other: Numeric) -> (r: bool)
        ensures
            r == self.spec_equals(other),
    {
        match (self, other) {
            (Numeric::Int(a), Numeric::Int(b)) => a == b,
            (Numeric::Float(a), Numeric::Float(b)) => float_eq(a, b),
            _ => false,
        }
    }
}

} // verus!
