use worksheet_engine::block::{Block, BlockContext, BlockKind, BlockTag};
use worksheet_engine::expression::Expression;
use worksheet_engine::grouping::GroupedHistory;
use worksheet_engine::mathvar::{convert_mathvar, convert_mathvar_vec, to_mathvar};
use worksheet_engine::sequence::{ActionDescriptor, ExpressionLine};

fn leaf(s: &str) -> Expression {
    Expression::Atom { symbol: s.to_string() }
}

fn app(s: &str, children: Vec<Expression>) -> Expression {
    Expression::Operator { symbol: s.to_string(), children }
}

fn algebra_ctx() -> BlockContext {
    BlockContext {
        inverse_ops: vec![
            ("+".to_string(), "-".to_string()),
            ("*".to_string(), "/".to_string()),
        ],
        fraction_ops: vec!["/".to_string()],
        conceal_ops: vec!["*".to_string()],
        op_precedence: vec![
            "-".to_string(),
            "+".to_string(),
            "/".to_string(),
            "*".to_string(),
        ],
        relation_ops: vec!["=".to_string()],
    }
}

fn symbol_text(b: &Block) -> String {
    match &b.kind {
        BlockKind::Symbol { text, .. } => text.clone(),
        _ => panic!("expected a symbol block"),
    }
}

fn row_children(b: &Block) -> &Vec<Block> {
    match &b.kind {
        BlockKind::HorizontalContainer { children } => children,
        _ => panic!("expected a horizontal container"),
    }
}

#[test]
fn leaf_becomes_symbol_with_root_address() {
    let ctx = algebra_ctx();
    let b = Block::build(&leaf("x"), &ctx);
    match &b.kind {
        BlockKind::Symbol { text, address } => {
            assert_eq!(text, "x");
            assert!(address.path.is_empty());
        },
        _ => panic!("expected a symbol block"),
    }
}

#[test]
fn row_interleaves_operands_and_operator_symbols() {
    let ctx = algebra_ctx();
    let b = Block::build(&app("+", vec![leaf("x"), leaf("3")]), &ctx);
    let row = row_children(&b);
    assert_eq!(row.len(), 3);
    assert_eq!(symbol_text(&row[0]), "x");
    assert_eq!(symbol_text(&row[1]), "+");
    assert_eq!(symbol_text(&row[2]), "3");
    match &row[0].kind {
        BlockKind::Symbol { address, .. } => assert_eq!(address.path, vec![0]),
        _ => panic!("expected a symbol block"),
    }
    match &row[2].kind {
        BlockKind::Symbol { address, .. } => assert_eq!(address.path, vec![1]),
        _ => panic!("expected a symbol block"),
    }
}

#[test]
fn lower_precedence_child_is_parenthesized() {
    let ctx = algebra_ctx();
    let b = Block::build(
        &app("*", vec![leaf("2"), app("+", vec![leaf("x"), leaf("y")])]),
        &ctx,
    );
    let row = row_children(&b);
    assert_eq!(row.len(), 3);
    assert!(row[2].contains_tag(BlockTag::Parentheses));
    assert!(!row[0].contains_tag(BlockTag::Parentheses));
}

#[test]
fn higher_precedence_child_is_not_parenthesized() {
    let ctx = algebra_ctx();
    let b = Block::build(
        &app("+", vec![leaf("2"), app("*", vec![leaf("x"), leaf("y")])]),
        &ctx,
    );
    let row = row_children(&b);
    assert!(!row[2].contains_tag(BlockTag::Parentheses));
}

#[test]
fn equal_precedence_child_is_not_parenthesized() {
    let ctx = algebra_ctx();
    let b = Block::build(
        &app("+", vec![leaf("2"), app("+", vec![leaf("x"), leaf("y")])]),
        &ctx,
    );
    let row = row_children(&b);
    assert!(!row[2].contains_tag(BlockTag::Parentheses));
}

#[test]
fn concealed_operator_symbol_is_tagged() {
    let ctx = algebra_ctx();
    let b = Block::build(&app("*", vec![leaf("2"), leaf("x")]), &ctx);
    let row = row_children(&b);
    assert_eq!(symbol_text(&row[1]), "*");
    assert!(row[1].contains_tag(BlockTag::Concealed));
    assert!(!row[0].contains_tag(BlockTag::Concealed));
}

#[test]
fn fraction_operator_builds_fraction_container() {
    let ctx = algebra_ctx();
    let b = Block::build(&app("/", vec![leaf("x"), leaf("2")]), &ctx);
    match &b.kind {
        BlockKind::FractionContainer { numerator, denominator } => {
            assert_eq!(symbol_text(numerator), "x");
            assert_eq!(symbol_text(denominator), "2");
        },
        _ => panic!("expected a fraction container"),
    }
}

#[test]
fn unary_operator_prefixes_its_operand() {
    let ctx = algebra_ctx();
    let b = Block::build(&app("-", vec![leaf("x")]), &ctx);
    let row = row_children(&b);
    assert_eq!(row.len(), 2);
    assert_eq!(symbol_text(&row[0]), "-");
    assert_eq!(symbol_text(&row[1]), "x");
}

#[test]
fn negated_operand_displays_through_inverse() {
    let ctx = algebra_ctx();
    let b = Block::build(
        &app("+", vec![leaf("a"), app("-", vec![leaf("b")])]),
        &ctx,
    );
    let row = row_children(&b);
    assert_eq!(row.len(), 3);
    assert_eq!(symbol_text(&row[0]), "a");
    assert_eq!(symbol_text(&row[1]), "-");
    assert_eq!(symbol_text(&row[2]), "b");
    match &row[2].kind {
        BlockKind::Symbol { address, .. } => assert_eq!(address.path, vec![1, 0]),
        _ => panic!("expected a symbol block"),
    }
}

#[test]
fn alignable_splits_top_level_relation() {
    let ctx = algebra_ctx();
    let e = app("=", vec![app("+", vec![leaf("x"), leaf("3")]), leaf("5")]);
    let (lhs, mid, rhs) = Block::build_alignable(&e, &ctx);
    let lhs = lhs.unwrap();
    let mid = mid.unwrap();
    let rhs = rhs.unwrap();
    assert_eq!(symbol_text(&mid), "=");
    let left_row = row_children(&lhs);
    assert_eq!(symbol_text(&left_row[0]), "x");
    match &left_row[0].kind {
        BlockKind::Symbol { address, .. } => assert_eq!(address.path, vec![0, 0]),
        _ => panic!("expected a symbol block"),
    }
    assert_eq!(symbol_text(&rhs), "5");
    match &rhs.kind {
        BlockKind::Symbol { address, .. } => assert_eq!(address.path, vec![1]),
        _ => panic!("expected a symbol block"),
    }
}

#[test]
fn alignable_keeps_non_relation_whole() {
    let ctx = algebra_ctx();
    let e = app("+", vec![leaf("x"), leaf("3")]);
    let (lhs, mid, rhs) = Block::build_alignable(&e, &ctx);
    assert!(lhs.is_some());
    assert!(mid.is_none());
    assert!(rhs.is_none());
}

#[test]
fn group_block_data_has_one_row_per_line() {
    let ctx = algebra_ctx();
    let g = GroupedHistory::new(
        vec![
            ExpressionLine::new(
                app("=", vec![leaf("x"), leaf("5")]),
                ActionDescriptor::Initial,
                false,
            ),
            ExpressionLine::new(
                leaf("x"),
                ActionDescriptor::Rule { label: "solve".to_string() },
                true,
            ),
        ],
        0,
    );
    let rows = g.to_block_data(&ctx);
    assert_eq!(rows.len(), 2);
    assert_eq!(rows[0].0, "introduce");
    assert_eq!(rows[1].0, "solve");
    let (l0, m0, r0) = &rows[0].1;
    assert!(l0.is_some() && m0.is_some() && r0.is_some());
    let (l1, m1, r1) = &rows[1].1;
    assert!(l1.is_some() && m1.is_none() && r1.is_none());
}

#[test]
fn mathvar_maps_letters_and_hyphen() {
    assert_eq!(to_mathvar('a'), Some('\u{1D44E}'));
    assert_eq!(to_mathvar('z'), Some('\u{1D467}'));
    assert_eq!(to_mathvar('A'), Some('\u{1D434}'));
    assert_eq!(to_mathvar('Z'), Some('\u{1D44D}'));
    assert_eq!(to_mathvar('-'), Some('\u{2212}'));
    assert_eq!(to_mathvar('3'), Some('3'));
    assert_eq!(to_mathvar(' '), Some(' '));
}

#[test]
fn convert_mathvar_rewrites_whole_string() {
    assert_eq!(convert_mathvar("a-b".to_string()), "\u{1D44E}\u{2212}\u{1D44F}");
    assert_eq!(convert_mathvar("2 + 2".to_string()), "2 + 2");
    assert_eq!(convert_mathvar(String::new()), "");
}

#[test]
fn convert_mathvar_vec_rewrites_only_variables() {
    let vars = vec!["x".to_string()];
    assert_eq!(
        convert_mathvar_vec("x + 3 = 5".to_string(), vars),
        "\u{1D465} + 3 = 5"
    );
    let none: Vec<String> = Vec::new();
    assert_eq!(convert_mathvar_vec("x + 3".to_string(), none), "x + 3");
}
