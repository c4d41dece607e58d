//! The abstract syntax the engine consumes, its mathematical model, and the
//! mapping from verb spellings to verbs.
//!
//! The grammar-driven parser that produces these nodes is an external
//! collaborator; the engine only ever reads already-built trees.

use vstd::prelude::*;
use crate::structures::Numeric;

verus! {

/// A binary verb of the language.
#[derive(Debug, Clone, Copy, PartialEq, Eq, Structural)]
pub enum DyadicVerb {
    Add,
    Subtract,
    Divide,
    Multiply,
    Replicate,
    GreaterThan,
    Access,
    Equals,
}

/// A unary verb of the language.
#[derive(Debug, Clone, Copy, PartialEq, Eq, Structural)]
pub enum MonadicVerb {
    Print,
    Generate,
    Shape,
}

/// A higher-order verb: one that takes a dyadic verb as its left argument.
#[derive(Debug, Clone, Copy, PartialEq, Eq, Structural)]
pub enum OperatorVerb {
    Reduce,
}

/// One node of the abstract syntax tree for a program line.
#[derive(Debug, PartialEq)]
pub enum AstNode {
    /// A number literal.
    Numeric(Numeric),
    /// A string literal.
    String(String),
    /// An array literal; every element is a full expression.
    Array(Vec<AstNode>),
    /// A dictionary literal; every value is a full expression.
    Dictionary(Vec<(String, AstNode)>),
    /// A read of a variable.
    Variable(String),
    /// An assignment to a variable, visible to the following lines.
    GlobalVar { variable: String, expression: Box<AstNode> },
    /// An application of a dyadic verb.
    DyadicOp { verb: DyadicVerb, lhs: Box<AstNode>, rhs: Box<AstNode> },
    /// An application of a monadic verb.
    MonadicOp { verb: MonadicVerb, rhs: Box<AstNode> },
    /// An application of an operator verb whose left argument is a dyadic verb.
    OperatorOp { lhs_verb: DyadicVerb, operator_verb: OperatorVerb, rhs: Box<AstNode> },
}

/// Mathematical model of a syntax tree.
#[verifier::ext_equal]
pub enum Ast {
    Numeric(Numeric),
    String(Seq<char>),
    Array(Seq<Ast>),
    Dictionary(Seq<(Seq<char>, Ast)>),
    Variable(Seq<char>),
    GlobalVar { variable: Seq<char>, expression: Box<Ast> },
    DyadicOp { verb: DyadicVerb, lhs: Box<Ast>, rhs: Box<Ast> },
    MonadicOp { verb: MonadicVerb, rhs: Box<Ast> },
    OperatorOp { lhs_verb: DyadicVerb, operator_verb: OperatorVerb, rhs: Box<Ast> },
}

impl AstNode {
    /// The model of a syntax tree.
    pub open spec fn as_ast(self) -> Ast
        decreases self,
    {
        match self {
            AstNode::Numeric(n) => Ast::Numeric(n),
            AstNode::String(s) => Ast::String(s@),
            AstNode::Array(nodes) => {
                proof {
                    assert(decreases_to!(self => nodes));
                    assert(decreases_to!(nodes => nodes@));
                }
                Ast::Array(Self::seq_ast(nodes@))
            },
            AstNode::Dictionary(entries) => {
                proof {
                    assert(decreases_to!(self => entries));
                    assert(decreases_to!(entries => entries@));
                }
                Ast::Dictionary(Self::entries_ast(entries@))
            },
            AstNode::Variable(name) => Ast::Variable(name@),
            AstNode::GlobalVar { variable, expression } => Ast::GlobalVar {
                variable: variable@,
                expression: Box::new(expression.as_ast()),
            },
            AstNode::DyadicOp { verb, lhs, rhs } => Ast::DyadicOp {
                verb,
                lhs: Box::new(lhs.as_ast()),
                rhs: Box::new(rhs.as_ast()),
            },
            AstNode::MonadicOp { verb, rhs } => Ast::MonadicOp {
                verb,
                rhs: Box::new(rhs.as_ast()),
            },
            AstNode::OperatorOp { lhs_verb, operator_verb, rhs } => Ast::OperatorOp {
                lhs_verb,
                operator_verb,
                rhs: Box::new(rhs.as_ast()),
            },
        }
    }

    /// The models of the elements of an array literal, in order.
    pub open spec fn seq_ast(s: Seq<AstNode>) -> Seq<Ast>
        decreases s,
    {
        if s.len() == 0 {
            Seq::empty()
        } else {
            Self::seq_ast(s.drop_last()).push(s.last().as_ast())
        }
    }

    /// The models of the entries of a dictionary literal, in order.
    pub open spec fn entries_ast(s: Seq<(String, AstNode)>) -> Seq<(Seq<char>, Ast)>
        decreases s,
    {
        if s.len() == 0 {
            Seq::empty()
        } else {
            Self::entries_ast(s.drop_last()).push((s.last().0@, s.last().1.as_ast()))
        }
    }
}

impl View for AstNode {
    type V = Ast;

    open spec fn view(&self) -> Ast {
        self.as_ast()
    }
}

/// The model of an array literal is as long as the literal and models it
/// elementwise.
pub broadcast proof fn lemma_seq_ast_index(s: Seq<AstNode>)
    ensures
        (#[trigger] AstNode::seq_ast(s)).len() == s.len(),
        forall|i: int| 0 <= i < s.len() ==> AstNode::seq_ast(s)[i] == s[i].as_ast(),
    decreases s,
{
    if s.len() > 0 {
        lemma_seq_ast_index(s.drop_last());
    }
}

/// The model of a dictionary literal is as long as the literal and models its
/// entries pairwise.
pub broadcast proof fn lemma_entries_ast_index(s: Seq<(String, AstNode)>)
    ensures
        (#[trigger] AstNode::entries_ast(s)).len() == s.len(),
        forall|i: int|
            0 <= i < s.len() ==> AstNode::entries_ast(s)[i] == (s[i].0@, s[i].1.as_ast()),
    decreases s,
{
    if s.len() > 0 {
        lemma_entries_ast_index(s.drop_last());
    }
}

/// The lemmas the evaluator uses to reason about syntax-tree models.
pub broadcast group group_ast_lemmas {
    lemma_seq_ast_index,
    lemma_entries_ast_index,
}

/// The dyadic verb a spelling stands for, if any.
pub open spec fn spec_dyadic_verb_from_str(s: Seq<char>) -> Option<DyadicVerb> {
    if s == "+"@ {
        Some(DyadicVerb::Add)
    } else if s == "-"@ {
        Some(DyadicVerb::Subtract)
    } else if s == "/"@ {
        Some(DyadicVerb::Replicate)
    } else if s == ">"@ {
        Some(DyadicVerb::GreaterThan)
    } else if s == "÷"@ {
        Some(DyadicVerb::Divide)
    } else if s == "×"@ {
        Some(DyadicVerb::Multiply)
    } else if s == "."@ {
        Some(DyadicVerb::Access)
    } else if s == "="@ {
        Some(DyadicVerb::Equals)
    } else {
        None
    }
}

/// Maps the spelling of a dyadic verb to the verb.  A spelling the language
/// does not know yields `None` instead of stopping the run.
pub fn dyadic_verb_from_str(verb_str: &str) -> (r: Option<DyadicVerb>)
    ensures
        r == spec_dyadic_verb_from_str(verb_str@),
{
    let s = verb_str.to_owned();
    if s == "+".to_owned() {
        Some(DyadicVerb::Add)
    } else if s == "-".to_owned() {
        Some(DyadicVerb::Subtract)
    } else if s == "/".to_owned() {
        Some(DyadicVerb::Replicate)
    } else if s == ">".to_owned() {
        Some(DyadicVerb::GreaterThan)
    } else if s == "÷".to_owned() {
        Some(DyadicVerb::Divide)
    } else if s == "×".to_owned() {
        Some(DyadicVerb::Multiply)
    } else if s == ".".to_owned() {
        Some(DyadicVerb::Access)
    } else if s == "=".to_owned() {
        Some(DyadicVerb::Equals)
    } else {
        None
    }
}

/// The monadic verb a spelling stands for, if any.
pub open spec fn spec_monadic_verb_from_str(s: Seq<char>) -> Option<MonadicVerb> {
    if s == "print"@ {
        Some(MonadicVerb::Print)
    } else if s == "⍳"@ {
        Some(MonadicVerb::Generate)
    } else if s == "⍴"@ {
        Some(MonadicVerb::Shape)
    } else {
        None
    }
}

/// Maps the spelling of a monadic verb to the verb.
pub fn monadic_verb_from_str(verb_str: &str) -> (r: Option<MonadicVerb>)
    ensures
        r == spec_monadic_verb_from_str(verb_str@),
{
    let s = verb_str.to_owned();
    if s == "print".to_owned() {
        Some(MonadicVerb::Print)
    } else if s == "⍳".to_owned() {
        Some(MonadicVerb::Generate)
    } else if s == "⍴".to_owned() {
        Some(MonadicVerb::Shape)
    } else {
        None
    }
}

/// The operator verb a spelling stands for, if any.
pub open spec fn spec_operator_verb_from_str(s: Seq<char>) -> Option<OperatorVerb> {
    if s == "/"@ {
        Some(OperatorVerb::Reduce)
    } else {
        None
    }
}

/// Maps the spelling of an operator verb to the verb.
pub fn operator_verb_from_str(verb_str: &str) -> (r: Option<OperatorVerb>)
    ensures
        r == spec_operator_verb_from_str(verb_str@),
{
    let s = verb_str.to_owned();
    if s == "/".to_owned() {
        Some(OperatorVerb::Reduce)
    } else {
        None
    }
}

} // verus!
