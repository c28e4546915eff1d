//! Expression trees and their mathematical model.
//!
//! An expression is an immutable tree: a leaf symbol (number or variable)
//! or an operator applied to an ordered list of children.  Contracts all
//! over this crate speak of [`ExprModel`], the same tree with every symbol
//! read as its `Seq<char>` view.

use vstd::prelude::*;

verus! {

/// A node in an expression tree.
#[derive(Debug)]
pub enum Expression {
    Atom { symbol: String },
    Operator { symbol: String, children: Vec<Expression> },
}

/// The mathematical value of an [`Expression`]: the same tree with the
/// symbols as character sequences.
pub enum ExprModel {
    Atom { symbol: Seq<char> },
    Operator { symbol: Seq<char>, children: Seq<ExprModel> },
}

/// The models of a sequence of expressions, element by element.
pub open spec fn exprs_model(s: Seq<Expression>) -> Seq<ExprModel>
    decreases s,
{
    if s.len() == 0 {
        Seq::empty()
    } else {
        exprs_model(s.drop_last()).push(expr_model(s.last()))
    }
}

/// The model of one expression.
pub open spec fn expr_model(e: Expression) -> ExprModel
    decreases e,
{
    match e {
        Expression::Atom { symbol } => ExprModel::Atom { symbol: symbol@ },
        Expression::Operator { symbol, children } => ExprModel::Operator {
            symbol: symbol@,
            children: exprs_model(children@),
        },
    }
}

/// `exprs_model` maps element by element.
pub broadcast proof fn lemma_exprs_model(s: Seq<Expression>)
    ensures
        #[trigger] exprs_model(s).len() == s.len(),
        forall|i: int| 0 <= i < s.len() ==> exprs_model(s)[i] == expr_model(s[i]),
    decreases s,
{
    if s.len() > 0 {
        lemma_exprs_model(s.drop_last());
    }
}

impl Expression {
    pub open spec fn model(self) -> ExprModel {
        expr_model(self)
    }

    /// A deep copy whose model is the same.
    pub fn duplicate(&self) -> (r: Expression)
        ensures
            r.model() == self.model(),
        decreases *self,
    {
        match self {
            Expression::Atom { symbol } => Expression::Atom { symbol: symbol.clone() },
            Expression::Operator { symbol, children } => {
                let mut copies: Vec<Expression> = Vec::new();
                let n = children.len();
                #[verifier::loop_isolation(false)]
                for i in 0..n
                    invariant
                        copies@.len() == i,
                        n == children@.len(),
                        forall|j: int|
                            0 <= j < i ==> copies@[j].model() == expr_model(children@[j]),
                    decreases n - i,
                {
                    proof {
                        broadcast use vstd::std_specs::vec::group_vec_axioms;

                        assert(decreases_to!(*self => *children));
                        assert(decreases_to!(*children => children@));
                        assert(decreases_to!(children@ => children@[i as int]));
                    }
                    let c = children[i].duplicate();
                    copies.push(c);
                }
                proof {
                    lemma_exprs_model(children@);
                    lemma_exprs_model(copies@);
                    assert(exprs_model(copies@) =~= exprs_model(children@));
                }
                Expression::Operator { symbol: symbol.clone(), children: copies }
            },
        }
    }
}

} // verus!
