//! An ordered collection of independent expression sequences.
//!
//! Each slot of a [`Worksheet`] is owned by the worksheet and accessed by
//! copy-modify-commit: callers fetch an owned copy with [`Worksheet::get`],
//! mutate it, and write it back with [`Worksheet::store`]; no mutable
//! reference into a live slot is ever handed out.  The composite
//! operations [`Worksheet::apply_action_at`] and [`Worksheet::reset_at`]
//! run one whole click's unit of work, clearing the selection that was
//! computed against the superseded top expression.

use crate::engine::RewriteEngine;
use crate::expression::Expression;
use crate::selection::SelectionSet;
use crate::sequence::{
    ActionModel, LineModel, SessionError, WorkableExpressionSequence,
};
use vstd::prelude::*;

verus! {

/// The models of a worksheet's slots, slot by slot.
pub open spec fn seqs_model(s: Seq<WorkableExpressionSequence>) -> Seq<Seq<LineModel>> {
    s.map(|i: int, q: WorkableExpressionSequence| q.model())
}

/// An ordered collection of independent sequences, one per expression
/// introduced at session start.
#[derive(Debug)]
pub struct Worksheet {
    sequences: Vec<WorkableExpressionSequence>,
}

impl Worksheet {
    /// The mathematical value of the worksheet: its slots' histories.
    pub closed spec fn model(self) -> Seq<Seq<LineModel>> {
        seqs_model(self.sequences@)
    }

    /// Every slot satisfies the sequence invariant.
    pub open spec fn wf(self) -> bool {
        forall|i: int|
            0 <= i < self.model().len() ==> crate::sequence::history_wf(#[trigger] self.model()[i])
    }

    pub fn new() -> (w: Worksheet)
        ensures
            w.wf(),
            w.model() == Seq::<Seq<LineModel>>::empty(),
    {
        let w = Worksheet { sequences: Vec::new() };
        proof {
            assert(w.model() =~= Seq::<Seq<LineModel>>::empty());
        }
        w
    }

    pub fn len(&self) -> (n: usize)
        ensures
            n == self.model().len(),
    {
        self.sequences.len()
    }

    /// Append a new single-line sequence holding `expression` and return
    /// its index.
    pub fn introduce(&mut self, expression: Expression) -> (index: usize)
        requires
            old(self).wf(),
        ensures
            final(self).wf(),
            index == old(self).model().len(),
            final(self).model() =~= old(self).model().push(
                seq![
                    (LineModel {
                        expression: expression.model(),
                        action: ActionModel::Initial,
                        is_auto_generated: false,
                    }),
                ],
            ),
    {
        let index = self.sequences.len();
        let seq = WorkableExpressionSequence::introduce(expression);
        let ghost q = seq;
        self.sequences.push(seq);
        proof {
            assert(self.model() =~= old(self).model().push(q.model()));
        }
        index
    }

    /// An owned copy of the sequence at `index`, absent when `index` is out
    /// of range.
    pub fn get(&self, index: usize) -> (r: Option<WorkableExpressionSequence>)
        ensures
            index < self.model().len() ==> (r matches Some(q) && q.model()
                == self.model()[index as int]),
            index >= self.model().len() ==> r is None,
    {
        if index < self.sequences.len() {
            Some(self.sequences[index].duplicate())
        } else {
            None
        }
    }

    /// Replace the sequence at `index` with `seq`; fails and leaves the
    /// worksheet unchanged when `index` is out of range.
    pub fn store(&mut self, index: usize, seq: WorkableExpressionSequence) -> (r: Result<
        (),
        SessionError,
    >)
        requires
            seq.wf(),
        ensures
            old(self).wf() ==> final(self).wf(),
            index < old(self).model().len() ==> r is Ok && final(self).model() =~= old(
                self,
            ).model().update(index as int, seq.model()),
            index >= old(self).model().len() ==> r == Err::<(), SessionError>(
                SessionError::InvalidSequenceIndex,
            ) && final(self).model() == old(self).model(),
    {
        if index >= self.sequences.len() {
            return Err(SessionError::InvalidSequenceIndex);
        }
        let ghost q = seq;
        self.sequences.set(index, seq);
        proof {
            assert(self.model() =~= old(self).model().update(index as int, q.model()));
        }
        Ok(())
    }

    /// One click's whole unit of work for applying an action: fetch the
    /// sequence at `seq_index`, apply the action at `action_index` among
    /// those the engine offers for its top expression under `selection`,
    /// commit the result back, and clear the selection that was computed
    /// against the now-superseded top expression.  An out-of-range
    /// `seq_index` fails first and touches nothing.
    pub fn apply_action_at<E: RewriteEngine>(
        &mut self,
        engine: &E,
        seq_index: usize,
        selection: &mut SelectionSet,
        action_index: usize,
    ) -> (r: Result<(), SessionError>)
        requires
            old(self).wf(),
        ensures
            final(self).wf(),
            seq_index >= old(self).model().len() ==> r == Err::<(), SessionError>(
                SessionError::InvalidSequenceIndex,
            ) && final(self).model() == old(self).model() && *final(selection) == *old(selection),
            seq_index < old(self).model().len() ==> {
                let acts = engine.actions_spec(
                    old(self).model()[seq_index as int].last().expression,
                    old(selection).model(),
                );
                &&& final(selection).model() == Seq::<Seq<usize>>::empty()
                &&& (action_index < acts.len() ==> r is Ok && final(self).model() == old(
                    self,
                ).model().update(
                    seq_index as int,
                    old(self).model()[seq_index as int].push(
                        (LineModel {
                            expression: acts[action_index as int].1,
                            action: acts[action_index as int].0,
                            is_auto_generated: false,
                        }),
                    ),
                ))
                &&& (action_index >= acts.len() ==> r == Err::<(), SessionError>(
                    SessionError::InvalidActionIndex,
                ) && final(self).model() == old(self).model())
            },
    {
        if seq_index >= self.sequences.len() {
            return Err(SessionError::InvalidSequenceIndex);
        }
        let mut seq = self.sequences[seq_index].duplicate();
        let applied = seq.try_apply_action_by_index(engine, selection, action_index);
        let stored = self.store(seq_index, seq);
        proof {
            if applied is Err {
                assert(self.model() =~= old(self).model());
            }
        }
        selection.clear();
        match stored {
            Ok(_) => applied,
            Err(e) => Err(e),
        }
    }

    /// One click's whole unit of work for rewinding: fetch the sequence at
    /// `seq_index`, truncate its history to `line_index + 1` lines, commit
    /// it back, and clear the selection.  An out-of-range `seq_index`
    /// fails first and touches nothing.
    pub fn reset_at(
        &mut self,
        seq_index: usize,
        selection: &mut SelectionSet,
        line_index: usize,
    ) -> (r: Result<(), SessionError>)
        requires
            old(self).wf(),
        ensures
            final(self).wf(),
            seq_index >= old(self).model().len() ==> r == Err::<(), SessionError>(
                SessionError::InvalidSequenceIndex,
            ) && final(self).model() == old(self).model() && *final(selection) == *old(selection),
            seq_index < old(self).model().len() ==> {
                &&& final(selection).model() == Seq::<Seq<usize>>::empty()
                &&& (line_index < old(self).model()[seq_index as int].len() ==> r is Ok
                    && final(self).model() == old(self).model().update(
                    seq_index as int,
                    old(self).model()[seq_index as int].subrange(0, line_index + 1),
                ))
                &&& (line_index >= old(self).model()[seq_index as int].len() ==> r == Err::<
                    (),
                    SessionError,
                >(SessionError::InvalidHistoryIndex) && final(self).model() == old(self).model())
            },
    {
        if seq_index >= self.sequences.len() {
            return Err(SessionError::InvalidSequenceIndex);
        }
        let mut seq = self.sequences[seq_index].duplicate();
        proof {
            assert(crate::sequence::history_wf(old(self).model()[seq_index as int]));
        }
        let was_reset = seq.reset_to(line_index);
        let stored = self.store(seq_index, seq);
        proof {
            if was_reset is Err {
                assert(self.model() =~= old(self).model());
            }
        }
        selection.clear();
        match stored {
            Ok(_) => was_reset,
            Err(e) => Err(e),
        }
    }
}

} // verus!
