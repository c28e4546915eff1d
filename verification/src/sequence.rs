//! One expression's step history and the operations over it.
//!
//! A [`WorkableExpressionSequence`] records every step taken on one
//! expression as an immutable [`ExpressionLine`]; applying an action
//! appends a line, and rewinding truncates.  A line is never edited in
//! place, and the first line of a sequence is always a manual one.

use crate::engine::{actions_model, RewriteEngine};
use crate::expression::{Expression, ExprModel};
use crate::selection::SelectionSet;
use vstd::prelude::*;

verus! {

/// How a line was derived from its predecessor: the identity action of the
/// initial line, or a named rule application.
#[derive(Debug)]
pub enum ActionDescriptor {
    Initial,
    Rule { label: String },
}

/// The mathematical value of an [`ActionDescriptor`].
pub enum ActionModel {
    Initial,
    Rule { label: Seq<char> },
}

/// The caption of an action, as shown beside the line it produced.
pub open spec fn action_text(a: ActionModel) -> Seq<char> {
    match a {
        ActionModel::Initial => "introduce"@,
        ActionModel::Rule { label } => label,
    }
}

impl ActionDescriptor {
    pub open spec fn model(self) -> ActionModel {
        match self {
            ActionDescriptor::Initial => ActionModel::Initial,
            ActionDescriptor::Rule { label } => ActionModel::Rule { label: label@ },
        }
    }

    /// A copy with the same model.
    pub fn duplicate(&self) -> (r: ActionDescriptor)
        ensures
            r.model() == self.model(),
    {
        match self {
            ActionDescriptor::Initial => ActionDescriptor::Initial,
            ActionDescriptor::Rule { label } => ActionDescriptor::Rule { label: label.clone() },
        }
    }

    /// The caption of this action.
    pub fn to_text(&self) -> (r: String)
        ensures
            r@ == action_text(self.model()),
    {
        match self {
            ActionDescriptor::Initial => "introduce".to_owned(),
            ActionDescriptor::Rule { label } => label.clone(),
        }
    }
}

/// One recorded step: the expression at that point, the action that
/// produced it, and whether the system generated it automatically.
/// Immutable once created.
#[derive(Debug)]
pub struct ExpressionLine {
    pub expression: Expression,
    pub action: ActionDescriptor,
    pub is_auto_generated: bool,
}

/// The mathematical value of an [`ExpressionLine`].
pub struct LineModel {
    pub expression: ExprModel,
    pub action: ActionModel,
    pub is_auto_generated: bool,
}

impl ExpressionLine {
    pub open spec fn model(self) -> LineModel {
        LineModel {
            expression: self.expression.model(),
            action: self.action.model(),
            is_auto_generated: self.is_auto_generated,
        }
    }

    pub fn new(expression: Expression, action: ActionDescriptor, is_auto_generated: bool) -> (l:
        ExpressionLine)
        ensures
            l.model() == (LineModel {
                expression: expression.model(),
                action: action.model(),
                is_auto_generated,
            }),
    {
        ExpressionLine { expression, action, is_auto_generated }
    }

    /// A copy with the same model.
    pub fn duplicate(&self) -> (r: ExpressionLine)
        ensures
            r.model() == self.model(),
    {
        ExpressionLine {
            expression: self.expression.duplicate(),
            action: self.action.duplicate(),
            is_auto_generated: self.is_auto_generated,
        }
    }
}

/// The models of a history, line by line.
pub open spec fn lines_model(s: Seq<ExpressionLine>) -> Seq<LineModel> {
    s.map(|i: int, l: ExpressionLine| l.model())
}

/// An out-of-range index handed to an operation; the operation leaves its
/// state unchanged.
#[derive(Clone, Copy, PartialEq, Eq, Structural, Debug)]
pub enum SessionError {
    InvalidActionIndex,
    InvalidHistoryIndex,
    InvalidSequenceIndex,
}

/// The history invariant: at least the initial line exists, and the
/// initial line is not auto-generated.
pub open spec fn history_wf(h: Seq<LineModel>) -> bool {
    &&& h.len() > 0
    &&& !h[0].is_auto_generated
}

/// One expression's full step history, never empty, whose first line is
/// always manual.
#[derive(Debug)]
pub struct WorkableExpressionSequence {
    history: Vec<ExpressionLine>,
}

impl WorkableExpressionSequence {
    /// The mathematical value of the sequence: its history, line by line.
    pub closed spec fn model(self) -> Seq<LineModel> {
        lines_model(self.history@)
    }

    /// The sequence invariant, [`history_wf`] of the model.
    pub open spec fn wf(self) -> bool {
        history_wf(self.model())
    }

    /// Start a sequence whose sole line holds `expression`, derived by the
    /// identity action and not auto-generated.
    pub fn introduce(expression: Expression) -> (s: WorkableExpressionSequence)
        ensures
            s.wf(),
            s.model() =~= seq![
                (LineModel {
                    expression: expression.model(),
                    action: ActionModel::Initial,
                    is_auto_generated: false,
                }),
            ],
    {
        let mut history: Vec<ExpressionLine> = Vec::new();
        history.push(ExpressionLine::new(expression, ActionDescriptor::Initial, false));
        WorkableExpressionSequence { history }
    }

    pub fn len(&self) -> (n: usize)
        ensures
            n == self.model().len(),
    {
        self.history.len()
    }

    /// Read one line of the history, as an immutable view.
    pub fn line(&self, index: usize) -> (r: Option<&ExpressionLine>)
        ensures
            index < self.model().len() ==> (r matches Some(l) && l.model()
                == self.model()[index as int]),
            index >= self.model().len() ==> r is None,
    {
        if index < self.history.len() {
            Some(&self.history[index])
        } else {
            None
        }
    }

    /// The expression of the current (last) line.
    pub fn top_expression(&self) -> (r: &Expression)
        requires
            self.wf(),
        ensures
            r.model() == self.model().last().expression,
    {
        &self.history[self.history.len() - 1].expression
    }

    /// The currently possible actions: whatever the engine reports for the
    /// current top expression and the given selection, in the engine's
    /// order, unmodified.
    pub fn get_possible_actions<E: RewriteEngine>(
        &self,
        engine: &E,
        selection: &SelectionSet,
    ) -> (r: Vec<(ActionDescriptor, Expression)>)
        requires
            self.wf(),
        ensures
            actions_model(r@) == engine.actions_spec(
                self.model().last().expression,
                selection.model(),
            ),
    {
        let top = self.top_expression();
        engine.possible_actions(top, selection)
    }

    /// Apply the action at `index` among the actions the engine offers for
    /// the current top expression under `selection`: appends the resulting
    /// line exactly when `index` is in bounds, and otherwise fails and
    /// leaves the history unchanged.
    pub fn try_apply_action_by_index<E: RewriteEngine>(
        &mut self,
        engine: &E,
        selection: &SelectionSet,
        index: usize,
    ) -> (r: Result<(), SessionError>)
        requires
            old(self).wf(),
        ensures
            final(self).wf(),
            ({
                let acts = engine.actions_spec(
                    old(self).model().last().expression,
                    selection.model(),
                );
                if index < acts.len() {
                    &&& r is Ok
                    &&& final(self).model() =~= old(self).model().push(
                        (LineModel {
                            expression: acts[index as int].1,
                            action: acts[index as int].0,
                            is_auto_generated: false,
                        }),
                    )
                } else {
                    &&& r == Err::<(), SessionError>(SessionError::InvalidActionIndex)
                    &&& final(self).model() == old(self).model()
                }
            }),
    {
        let mut actions = self.get_possible_actions(engine, selection);
        if index >= actions.len() {
            return Err(SessionError::InvalidActionIndex);
        }
        let (action, expression) = actions.remove(index);
        self.history.push(ExpressionLine::new(expression, action, false));
        proof {
            let acts = engine.actions_spec(old(self).model().last().expression, selection.model());
            assert(self.model() =~= old(self).model().push(
                (LineModel {
                    expression: acts[index as int].1,
                    action: acts[index as int].0,
                    is_auto_generated: false,
                }),
            ));
        }
        Ok(())
    }

    /// Append an automatically generated follow-up line, as the external
    /// normalizer produces them.
    pub fn append_auto_line(&mut self, expression: Expression, action: ActionDescriptor)
        requires
            old(self).wf(),
        ensures
            final(self).wf(),
            final(self).model() =~= old(self).model().push(
                (LineModel {
                    expression: expression.model(),
                    action: action.model(),
                    is_auto_generated: true,
                }),
            ),
    {
        self.history.push(ExpressionLine::new(expression, action, true));
    }

    /// Run the engine's normalizer on the current top expression and record
    /// its result as an automatically generated line.
    pub fn apply_normalization<E: RewriteEngine>(&mut self, engine: &E, action: ActionDescriptor)
        requires
            old(self).wf(),
        ensures
            final(self).wf(),
            final(self).model() =~= old(self).model().push(
                (LineModel {
                    expression: engine.normalize_spec(old(self).model().last().expression),
                    action: action.model(),
                    is_auto_generated: true,
                }),
            ),
    {
        let top = self.top_expression();
        let normalized = engine.normalize(top);
        self.append_auto_line(normalized, action);
    }

    /// Rewind the history to its first `index + 1` lines, discarding the
    /// rest irrecoverably; fails and leaves the history unchanged when
    /// `index` does not denote an existing line.
    pub fn reset_to(&mut self, index: usize) -> (r: Result<(), SessionError>)
        requires
            old(self).wf(),
        ensures
            final(self).wf(),
            index < old(self).model().len() ==> r is Ok && final(self).model() =~= old(
                self,
            ).model().subrange(0, index + 1),
            index >= old(self).model().len() ==> r == Err::<(), SessionError>(
                SessionError::InvalidHistoryIndex,
            ) && final(self).model() == old(self).model(),
    {
        if index >= self.history.len() {
            return Err(SessionError::InvalidHistoryIndex);
        }
        self.history.truncate(index + 1);
        proof {
            assert(self.model() =~= old(self).model().subrange(0, index + 1));
        }
        Ok(())
    }

    /// A copy with the same model.
    pub fn duplicate(&self) -> (r: WorkableExpressionSequence)
        ensures
            r.model() == self.model(),
    {
        let mut history: Vec<ExpressionLine> = Vec::new();
        let n = self.history.len();
        #[verifier::loop_isolation(false)]
        for i in 0..n
            invariant
                lines_model(history@) == lines_model(self.history@).subrange(0, i as int),
        {
            let l = self.history[i].duplicate();
            history.push(l);
            proof {
                assert(lines_model(history@) =~= lines_model(self.history@).subrange(
                    0,
                    i + 1 as int,
                ));
            }
        }
        proof {
            assert(lines_model(self.history@).subrange(0, n as int) =~= lines_model(
                self.history@,
            ));
        }
        WorkableExpressionSequence { history }
    }
}

} // verus!
