use worksheet_engine::engine::ScriptedEngine;
use worksheet_engine::expression::Expression;
use worksheet_engine::grouping::group_auto_history;
use worksheet_engine::selection::{Address, SelectionSet};
use worksheet_engine::sequence::{
    ActionDescriptor, ExpressionLine, SessionError, WorkableExpressionSequence,
};
use worksheet_engine::worksheet::Worksheet;

fn atom(s: &str) -> Expression {
    Expression::Atom { symbol: s.to_string() }
}

fn op(s: &str, children: Vec<Expression>) -> Expression {
    Expression::Operator { symbol: s.to_string(), children }
}

fn rule(label: &str) -> ActionDescriptor {
    ActionDescriptor::Rule { label: label.to_string() }
}

#[test]
fn toggle_twice_equals_once() {
    let a = Address::new(vec![0, 1]);
    let mut once = SelectionSet::new();
    once.toggle(&a, true);
    let mut twice = SelectionSet::new();
    twice.toggle(&a, true);
    twice.toggle(&a, true);
    assert_eq!(once.len(), 1);
    assert_eq!(twice.len(), 1);
    assert!(once.contains(&a));
    assert!(twice.contains(&a));
}

#[test]
fn toggle_on_then_off_is_empty() {
    let a = Address::new(vec![2]);
    let mut sel = SelectionSet::new();
    sel.toggle(&a, true);
    sel.toggle(&a, false);
    assert_eq!(sel.len(), 0);
    assert!(!sel.contains(&a));
}

#[test]
fn toggle_off_keeps_other_addresses() {
    let a = Address::new(vec![0]);
    let b = Address::new(vec![1]);
    let mut sel = SelectionSet::new();
    sel.toggle(&a, true);
    sel.toggle(&b, true);
    sel.toggle(&a, false);
    assert_eq!(sel.len(), 1);
    assert!(sel.contains(&b));
    assert!(!sel.contains(&a));
}

#[test]
fn toggle_present_is_no_op() {
    let a = Address::new(vec![]);
    let mut sel = SelectionSet::new();
    sel.toggle(&a, true);
    sel.toggle(&a, true);
    assert_eq!(sel.len(), 1);
}

#[test]
fn clear_empties_selection() {
    let mut sel = SelectionSet::new();
    sel.toggle(&Address::new(vec![0]), true);
    sel.toggle(&Address::new(vec![1]), true);
    sel.clear();
    assert_eq!(sel.len(), 0);
}

#[test]
fn apply_out_of_bounds_fails_and_keeps_history() {
    let engine = ScriptedEngine { actions: vec![(rule("only"), atom("y"))] };
    let mut seq = WorkableExpressionSequence::introduce(atom("x"));
    let sel = SelectionSet::new();
    let r = seq.try_apply_action_by_index(&engine, &sel, 1);
    assert_eq!(r, Err(SessionError::InvalidActionIndex));
    assert_eq!(seq.len(), 1);
}

#[test]
fn apply_in_bounds_appends_line() {
    let engine = ScriptedEngine { actions: vec![(rule("double"), atom("y"))] };
    let mut seq = WorkableExpressionSequence::introduce(atom("x"));
    let sel = SelectionSet::new();
    let r = seq.try_apply_action_by_index(&engine, &sel, 0);
    assert_eq!(r, Ok(()));
    assert_eq!(seq.len(), 2);
    let last = seq.line(1).unwrap();
    match &last.expression {
        Expression::Atom { symbol } => assert_eq!(symbol, "y"),
        _ => panic!("expected an atom"),
    }
    assert_eq!(last.action.to_text(), "double");
    assert!(!last.is_auto_generated);
}

#[test]
fn initial_line_is_manual() {
    let seq = WorkableExpressionSequence::introduce(atom("x"));
    let first = seq.line(0).unwrap();
    assert!(!first.is_auto_generated);
    assert_eq!(first.action.to_text(), "introduce");
}

#[test]
fn reset_to_truncates_history() {
    let mut seq = WorkableExpressionSequence::introduce(atom("a"));
    seq.append_auto_line(atom("b"), rule("auto1"));
    seq.append_auto_line(atom("c"), rule("auto2"));
    assert_eq!(seq.len(), 3);
    let r = seq.reset_to(1);
    assert_eq!(r, Ok(()));
    assert_eq!(seq.len(), 2);
}

#[test]
fn reset_to_length_fails_and_keeps_history() {
    let mut seq = WorkableExpressionSequence::introduce(atom("a"));
    seq.append_auto_line(atom("b"), rule("auto"));
    let r = seq.reset_to(2);
    assert_eq!(r, Err(SessionError::InvalidHistoryIndex));
    assert_eq!(seq.len(), 2);
}

#[test]
fn normalization_appends_auto_line() {
    let engine = ScriptedEngine { actions: vec![] };
    let mut seq = WorkableExpressionSequence::introduce(atom("x"));
    seq.apply_normalization(&engine, rule("simplify"));
    assert_eq!(seq.len(), 2);
    let last = seq.line(1).unwrap();
    assert!(last.is_auto_generated);
    match &last.expression {
        Expression::Atom { symbol } => assert_eq!(symbol, "x"),
        _ => panic!("expected the identity normalization"),
    }
}

#[test]
fn grouping_splits_on_manual_lines() {
    let lines = vec![
        ExpressionLine::new(atom("l0"), rule("m0"), false),
        ExpressionLine::new(atom("l1"), rule("a1"), true),
        ExpressionLine::new(atom("l2"), rule("a2"), true),
        ExpressionLine::new(atom("l3"), rule("m3"), false),
        ExpressionLine::new(atom("l4"), rule("m4"), false),
    ];
    let groups = group_auto_history(&lines);
    assert_eq!(groups.len(), 3);
    assert_eq!(groups[0].line_index, 0);
    assert_eq!(groups[1].line_index, 3);
    assert_eq!(groups[2].line_index, 4);
    assert_eq!(groups[0].history.len(), 3);
    assert_eq!(groups[1].history.len(), 1);
    assert_eq!(groups[2].history.len(), 1);
}

#[test]
fn grouping_concatenation_reconstructs_history() {
    let lines = vec![
        ExpressionLine::new(atom("l0"), rule("m0"), false),
        ExpressionLine::new(atom("l1"), rule("a1"), true),
        ExpressionLine::new(atom("l2"), rule("m2"), false),
        ExpressionLine::new(atom("l3"), rule("a3"), true),
    ];
    let groups = group_auto_history(&lines);
    let mut flattened: Vec<String> = Vec::new();
    for g in &groups {
        for l in &g.history {
            flattened.push(l.action.to_text());
        }
    }
    let originals: Vec<String> = lines.iter().map(|l| l.action.to_text()).collect();
    assert_eq!(flattened, originals);
}

#[test]
fn grouping_of_leading_auto_run_anchors_at_zero() {
    let lines = vec![
        ExpressionLine::new(atom("l0"), rule("a0"), true),
        ExpressionLine::new(atom("l1"), rule("a1"), true),
        ExpressionLine::new(atom("l2"), rule("m2"), false),
    ];
    let groups = group_auto_history(&lines);
    assert_eq!(groups.len(), 2);
    assert_eq!(groups[0].line_index, 0);
    assert_eq!(groups[0].history.len(), 2);
    assert_eq!(groups[1].line_index, 2);
    assert_eq!(groups[1].history.len(), 1);
}

#[test]
fn grouping_of_empty_history_is_empty() {
    let lines: Vec<ExpressionLine> = Vec::new();
    let groups = group_auto_history(&lines);
    assert_eq!(groups.len(), 0);
}

#[test]
fn worksheet_introduce_get_store() {
    let mut ws = Worksheet::new();
    assert_eq!(ws.len(), 0);
    let i = ws.introduce(atom("x"));
    assert_eq!(i, 0);
    assert_eq!(ws.len(), 1);
    let mut seq = ws.get(0).unwrap();
    seq.append_auto_line(atom("y"), rule("auto"));
    assert_eq!(ws.get(0).unwrap().len(), 1);
    let r = ws.store(0, seq);
    assert_eq!(r, Ok(()));
    assert_eq!(ws.get(0).unwrap().len(), 2);
}

#[test]
fn worksheet_get_out_of_range_is_none() {
    let ws = Worksheet::new();
    assert!(ws.get(0).is_none());
}

#[test]
fn worksheet_store_out_of_range_fails() {
    let mut ws = Worksheet::new();
    let seq = WorkableExpressionSequence::introduce(atom("x"));
    let r = ws.store(0, seq);
    assert_eq!(r, Err(SessionError::InvalidSequenceIndex));
    assert_eq!(ws.len(), 0);
}

#[test]
fn worksheet_apply_action_commits_and_clears_selection() {
    let engine = ScriptedEngine { actions: vec![(rule("step"), atom("z"))] };
    let mut ws = Worksheet::new();
    ws.introduce(atom("x"));
    let mut sel = SelectionSet::new();
    sel.toggle(&Address::new(vec![]), true);
    let r = ws.apply_action_at(&engine, 0, &mut sel, 0);
    assert_eq!(r, Ok(()));
    assert_eq!(sel.len(), 0);
    assert_eq!(ws.get(0).unwrap().len(), 2);
}

#[test]
fn worksheet_apply_action_bad_sequence_index_fails() {
    let engine = ScriptedEngine { actions: vec![] };
    let mut ws = Worksheet::new();
    let mut sel = SelectionSet::new();
    let r = ws.apply_action_at(&engine, 3, &mut sel, 0);
    assert_eq!(r, Err(SessionError::InvalidSequenceIndex));
}

#[test]
fn worksheet_reset_commits_and_clears_selection() {
    let mut ws = Worksheet::new();
    ws.introduce(atom("x"));
    let mut seq = ws.get(0).unwrap();
    seq.append_auto_line(atom("y"), rule("auto1"));
    seq.append_auto_line(atom("z"), rule("auto2"));
    ws.store(0, seq).unwrap();
    let mut sel = SelectionSet::new();
    sel.toggle(&Address::new(vec![0]), true);
    let r = ws.reset_at(0, &mut sel, 0);
    assert_eq!(r, Ok(()));
    assert_eq!(sel.len(), 0);
    assert_eq!(ws.get(0).unwrap().len(), 1);
}

#[test]
fn end_to_end_session_flow() {
    let engine = ScriptedEngine {
        actions: vec![(rule("expand"), op("+", vec![atom("x"), atom("0")]))],
    };
    let mut ws = Worksheet::new();
    let i = ws.introduce(atom("x"));
    let mut sel = SelectionSet::new();
    sel.toggle(&Address::new(vec![]), true);
    ws.apply_action_at(&engine, i, &mut sel, 0).unwrap();
    let seq = ws.get(i).unwrap();
    assert_eq!(seq.len(), 2);
    let mut lines = Vec::new();
    for k in 0..seq.len() {
        lines.push(seq.line(k).unwrap().duplicate());
    }
    let groups = group_auto_history(&lines);
    assert_eq!(groups.len(), 2);
    assert_eq!(groups[0].line_index, 0);
    assert_eq!(groups[1].line_index, 1);
}
