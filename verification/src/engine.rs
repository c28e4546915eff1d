//! The injected rewrite engine.
//!
//! Deciding which rewrites apply to an expression, and normalizing the
//! result of a step, is the business of an external collaborator.  A
//! sequence consumes that collaborator through [`RewriteEngine`], injected
//! at each call; [`ScriptedEngine`] is a deterministic in-crate
//! implementation that replays a fixed action list, for tests and demos.

use crate::expression::{expr_model, Expression, ExprModel};
use crate::selection::SelectionSet;
use crate::sequence::{ActionDescriptor, ActionModel};
use vstd::prelude::*;

verus! {

/// The models of an action list, element by element: each offered action
/// paired with the expression it would produce.
pub open spec fn actions_model(s: Seq<(ActionDescriptor, Expression)>) -> Seq<
    (ActionModel, ExprModel),
> {
    s.map(|i: int, p: (ActionDescriptor, Expression)| (p.0.model(), expr_model(p.1)))
}

/// An external rule engine and normalizer, as a capability injected into
/// the sequence operations.  `actions_spec` is the engine's own statement
/// of which actions it offers; nothing in this crate decides whether those
/// rewrites are mathematically valid.
pub trait RewriteEngine {
    /// The action list the engine offers for `expr` under `selection`, in
    /// the engine's order.
    spec fn actions_spec(&self, expr: ExprModel, selection: Seq<Seq<usize>>) -> Seq<
        (ActionModel, ExprModel),
    >;

    /// What the engine's normalizer turns `expr` into.
    spec fn normalize_spec(&self, expr: ExprModel) -> ExprModel;

    /// Enumerate the currently possible actions for `expr` under
    /// `selection`, exactly as `actions_spec` states them.
    fn possible_actions(&self, expr: &Expression, selection: &SelectionSet) -> (r: Vec<
        (ActionDescriptor, Expression),
    >)
        ensures
            actions_model(r@) == self.actions_spec(expr.model(), selection.model()),
    ;

    /// Normalize `expr`, exactly as `normalize_spec` states it.
    fn normalize(&self, expr: &Expression) -> (r: Expression)
        ensures
            r.model() == self.normalize_spec(expr.model()),
    ;
}

/// A deterministic engine that offers the same fixed action list whatever
/// the expression and selection, and whose normalizer is the identity.
pub struct ScriptedEngine {
    pub actions: Vec<(ActionDescriptor, Expression)>,
}

impl RewriteEngine for ScriptedEngine {
    open spec fn actions_spec(&self, expr: ExprModel, selection: Seq<Seq<usize>>) -> Seq<
        (ActionModel, ExprModel),
    > {
        actions_model(self.actions@)
    }

    open spec fn normalize_spec(&self, expr: ExprModel) -> ExprModel {
        expr
    }

    fn possible_actions(&self, expr: &Expression, selection: &SelectionSet) -> (r: Vec<
        (ActionDescriptor, Expression),
    >) {
        let mut out: Vec<(ActionDescriptor, Expression)> = Vec::new();
        let n = self.actions.len();
        #[verifier::loop_isolation(false)]
        for i in 0..n
            invariant
                actions_model(out@) == actions_model(self.actions@).subrange(0, i as int),
        {
            let pair = (self.actions[i].0.duplicate(), self.actions[i].1.duplicate());
            out.push(pair);
            proof {
                assert(actions_model(out@) =~= actions_model(self.actions@).subrange(
                    0,
                    i + 1 as int,
                ));
            }
        }
        proof {
            assert(actions_model(self.actions@).subrange(0, n as int) =~= actions_model(
                self.actions@,
            ));
        }
        out
    }

    fn normalize(&self, expr: &Expression) -> (r: Expression) {
        expr.duplicate()
    }
}

} // verus!
