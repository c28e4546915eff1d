//! Grouping of automatically derived follow-up steps.
//!
//! For collapsed presentation, a history is cut into contiguous groups:
//! one manual step together with the automatically generated lines that
//! follow it (the very first group may instead begin with a leading run of
//! automatic lines, when a history starts with them).  Concatenating the
//! groups, in order, always reproduces the history exactly.

use crate::block::{opt_block_model, spec_alignable, Block, BlockContext};
use crate::sequence::{action_text, lines_model, ExpressionLine, LineModel};
use vstd::prelude::*;

verus! {

/// A contiguous slice of a history: `line_index` is the index, in the
/// original history, of its first line.
#[derive(Debug)]
pub struct GroupedHistory {
    pub history: Vec<ExpressionLine>,
    pub line_index: usize,
}

impl GroupedHistory {
    /// The models of this group's lines, in order.
    pub open spec fn lines(self) -> Seq<LineModel> {
        lines_model(self.history@)
    }

    pub fn new(history: Vec<ExpressionLine>, line_index: usize) -> (g: GroupedHistory)
        ensures
            g.lines() == lines_model(history@),
            g.line_index == line_index,
    {
        GroupedHistory { history, line_index }
    }

    /// One presentation row per line of this group: the caption of the
    /// action that produced the line, and the aligned block triple of its
    /// expression.
    pub fn to_block_data(&self, block_ctx: &BlockContext) -> (r: Vec<
        (String, (Option<Block>, Option<Block>, Option<Block>)),
    >)
        ensures
            r@.len() == self.lines().len(),
            forall|j: int|
                0 <= j < r@.len() ==> (#[trigger] r@[j]).0@ == action_text(
                    self.lines()[j].action,
                ),
            forall|j: int|
                0 <= j < r@.len() ==> ({
                    let t = (#[trigger] r@[j]).1;
                    (opt_block_model(t.0), opt_block_model(t.1), opt_block_model(t.2))
                        == spec_alignable(*block_ctx, self.lines()[j].expression)
                }),
    {
        let mut r: Vec<(String, (Option<Block>, Option<Block>, Option<Block>))> = Vec::new();
        let n = self.history.len();
        #[verifier::loop_isolation(false)]
        for i in 0..n
            invariant
                r@.len() == i,
                forall|j: int|
                    0 <= j < i ==> (#[trigger] r@[j]).0@ == action_text(self.lines()[j].action),
                forall|j: int|
                    0 <= j < i ==> ({
                        let t = (#[trigger] r@[j]).1;
                        (opt_block_model(t.0), opt_block_model(t.1), opt_block_model(t.2))
                            == spec_alignable(*block_ctx, self.lines()[j].expression)
                    }),
        {
            let line = &self.history[i];
            let caption = line.action.to_text();
            let triple = Block::build_alignable(&line.expression, block_ctx);
            let entry = (caption, triple);
            let ghost e = entry;
            r.push(entry);
            proof {
                assert(r@[i as int] == e);
                assert(self.lines()[i as int] == self.history@[i as int].model());
            }
        }
        r
    }
}

/// The concatenation of the groups' lines, in order.
pub open spec fn groups_concat(gs: Seq<GroupedHistory>) -> Seq<LineModel>
    decreases gs.len(),
{
    if gs.len() == 0 {
        Seq::empty()
    } else {
        groups_concat(gs.drop_last()) + gs.last().lines()
    }
}

/// Every group's `line_index` is the number of lines in the groups before
/// it: the index of its first line in the original history.
pub open spec fn anchors_consistent(gs: Seq<GroupedHistory>) -> bool {
    forall|j: int|
        0 <= j < gs.len() ==> #[trigger] gs[j].line_index == groups_concat(
            gs.subrange(0, j),
        ).len()
}

/// Cut a history into groups: a manual line starts a new group, an
/// automatic line joins the current one.  The result reproduces the
/// history exactly when concatenated in order; every group is non-empty;
/// every group after the first starts with a manual line; within a group
/// every line after the first is automatic; and each group's `line_index`
/// is the position of its first line in the history.
pub fn group_auto_history(history: &Vec<ExpressionLine>) -> (r: Vec<GroupedHistory>)
    ensures
        groups_concat(r@) == lines_model(history@),
        forall|j: int| 0 <= j < r@.len() ==> #[trigger] r@[j].lines().len() > 0,
        forall|j: int| 1 <= j < r@.len() ==> !(#[trigger] r@[j].lines())[0].is_auto_generated,
        forall|j: int, k: int|
            0 <= j < r@.len() && 1 <= k < r@[j].lines().len() ==> (#[trigger] r@[
                j
            ].lines()[k]).is_auto_generated,
        anchors_consistent(r@),
{
    let mut grouped: Vec<GroupedHistory> = Vec::new();
    let mut current: Vec<ExpressionLine> = Vec::new();
    let mut current_index: usize = 0;
    let n = history.len();
    #[verifier::loop_isolation(false)]
    for i in 0..n
        invariant
            groups_concat(grouped@) + lines_model(current@) == lines_model(
                history@.subrange(0, i as int),
            ),
            current@.len() == 0 ==> grouped@.len() == 0 && current_index == 0 && i == 0,
            current@.len() > 0 ==> current_index as int == groups_concat(grouped@).len(),
            current@.len() > 0 && grouped@.len() > 0 ==> !lines_model(
                current@,
            )[0].is_auto_generated,
            forall|k: int| 1 <= k < current@.len() ==> lines_model(current@)[k].is_auto_generated,
            forall|j: int| 0 <= j < grouped@.len() ==> #[trigger] grouped@[j].lines().len() > 0,
            forall|j: int|
                1 <= j < grouped@.len() ==> !(#[trigger] grouped@[j].lines())[0].is_auto_generated,
            forall|j: int, k: int|
                0 <= j < grouped@.len() && 1 <= k < grouped@[j].lines().len() ==> (
                #[trigger] grouped@[j].lines()[k]).is_auto_generated,
            anchors_consistent(grouped@),
    {
        let line = history[i].duplicate();
        proof {
            let pre = lines_model(history@.subrange(0, i as int));
            let post = lines_model(history@.subrange(0, i + 1 as int));
            assert(post.drop_last() =~= pre);
            assert(post.last() == history@[i as int].model());
        }
        if line.is_auto_generated {
            let ghost cur0 = current@;
            let ghost line0 = line;
            current.push(line);
            proof {
                assert forall|k: int| 0 <= k < current@.len() implies lines_model(current@)[k]
                    == lines_model(cur0).push(line0.model())[k] by {
                    if k < cur0.len() {
                        assert(current@[k] == cur0[k]);
                    } else {
                        assert(current@[k] == line0);
                    }
                }
                assert(lines_model(current@) =~= lines_model(cur0).push(line0.model()));
                let a = groups_concat(grouped@);
                let b = lines_model(cur0);
                let x = line0.model();
                let pre = lines_model(history@.subrange(0, i as int));
                let post = lines_model(history@.subrange(0, i + 1 as int));
                assert(a + b.push(x) =~= (a + b).push(x));
                assert(post =~= pre.push(x));
            }
        } else {
            if current.len() > 0 {
                let finished = current;
                current = Vec::new();
                let g = GroupedHistory::new(finished, current_index);
                let ghost before = grouped@;
                grouped.push(g);
                proof {
                    assert(grouped@.drop_last() =~= before);
                    assert(groups_concat(grouped@) =~= groups_concat(before) + g.lines());
                    assert forall|j: int| 0 <= j < grouped@.len() implies #[trigger] grouped@[
                        j
                    ].line_index == groups_concat(grouped@.subrange(0, j)).len() by {
                        assert(grouped@.subrange(0, j) =~= before.subrange(0, j));
                        if j == before.len() {
                            assert(grouped@.subrange(0, j) =~= before);
                        }
                    }
                }
            }
            current = Vec::new();
            current.push(line);
            current_index = i;
            proof {
                assert(lines_model(current@) =~= seq![history@[i as int].model()]);
                assert(groups_concat(grouped@) + lines_model(current@) =~= lines_model(
                    history@.subrange(0, i + 1 as int),
                ));
            }
        }
    }
    proof {
        assert(history@.subrange(0, n as int) =~= history@);
    }
    if current.len() > 0 {
        let g = GroupedHistory::new(current, current_index);
        let ghost before = grouped@;
        grouped.push(g);
        proof {
            assert(grouped@.drop_last() =~= before);
            assert(groups_concat(grouped@) =~= groups_concat(before) + g.lines());
            assert forall|j: int| 0 <= j < grouped@.len() implies #[trigger] grouped@[j].line_index
                == groups_concat(grouped@.subrange(0, j)).len() by {
                assert(grouped@.subrange(0, j) =~= before.subrange(0, j));
                if j == before.len() {
                    assert(grouped@.subrange(0, j) =~= before);
                }
            }
        }
    } else {
        proof {
            assert(groups_concat(grouped@) =~= lines_model(history@));
        }
    }
    grouped
}

} // verus!
