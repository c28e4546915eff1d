//! Presentation-block trees.
//!
//! [`Block::build`] converts an expression tree into a tree of display
//! blocks: symbols carrying the address of the node they came from,
//! horizontal containers interleaving operands with operator symbols, and
//! fraction containers.  A [`BlockContext`] configures which operators are
//! drawn as fractions, which are concealed, which pair is displayed as the
//! other's inverse, and the precedence order that decides parenthesization.
//! [`Block::build_alignable`] additionally splits a top-level relation into
//! an aligned (left, relation, right) triple.

use crate::expression::{expr_model, exprs_model, lemma_exprs_model, Expression, ExprModel};
use crate::selection::Address;
use vstd::prelude::*;

verus! {

broadcast use vstd::std_specs::vec::group_vec_axioms, lemma_exprs_model;

/// A display tag on a block: the block is wrapped in parentheses, or drawn
/// invisibly.
#[derive(Clone, Copy, PartialEq, Eq, Structural, Debug)]
pub enum BlockTag {
    Parentheses,
    Concealed,
}

/// A presentation node derived from an expression for display and
/// selection.
#[derive(Debug)]
pub struct Block {
    pub kind: BlockKind,
    pub tags: Vec<BlockTag>,
}

#[derive(Debug)]
pub enum BlockKind {
    Symbol { text: String, address: Address },
    HorizontalContainer { children: Vec<Block> },
    FractionContainer { numerator: Box<Block>, denominator: Box<Block> },
}

/// The mathematical value of a [`Block`].
pub struct BlockModel {
    pub kind: BlockKindModel,
    pub tags: Seq<BlockTag>,
}

pub enum BlockKindModel {
    Symbol { text: Seq<char>, address: Seq<usize> },
    HorizontalContainer { children: Seq<BlockModel> },
    /// Exactly two parts: the numerator, then the denominator.
    FractionContainer { parts: Seq<BlockModel> },
}

/// The models of a sequence of blocks, element by element.
pub open spec fn blocks_model(s: Seq<Block>) -> Seq<BlockModel>
    decreases s,
{
    if s.len() == 0 {
        Seq::empty()
    } else {
        blocks_model(s.drop_last()).push(block_model(s.last()))
    }
}

/// The model of one block.
pub open spec fn block_model(b: Block) -> BlockModel
    decreases b,
{
    BlockModel {
        kind: match b.kind {
            BlockKind::Symbol { text, address } => BlockKindModel::Symbol {
                text: text@,
                address: address.path@,
            },
            BlockKind::HorizontalContainer { children } => BlockKindModel::HorizontalContainer {
                children: blocks_model(children@),
            },
            BlockKind::FractionContainer { numerator, denominator } => (
            BlockKindModel::FractionContainer {
                parts: seq![block_model(*numerator), block_model(*denominator)],
            }),
        },
        tags: b.tags@,
    }
}

/// `blocks_model` maps element by element.
pub broadcast proof fn lemma_blocks_model(s: Seq<Block>)
    ensures
        #[trigger] blocks_model(s).len() == s.len(),
        forall|i: int| 0 <= i < s.len() ==> blocks_model(s)[i] == block_model(s[i]),
    decreases s,
{
    if s.len() > 0 {
        lemma_blocks_model(s.drop_last());
    }
}

impl Block {
    pub open spec fn model(self) -> BlockModel {
        block_model(self)
    }

    /// Whether this block carries `tag`.
    pub fn contains_tag(&self, tag: BlockTag) -> (r: bool)
        ensures
            r == self.model().tags.contains(tag),
    {
        let n = self.tags.len();
        #[verifier::loop_isolation(false)]
        for i in 0..n
            invariant
                forall|j: int| 0 <= j < i ==> self.tags@[j] != tag,
        {
            if self.tags[i] == tag {
                return true;
            }
        }
        false
    }
}

/// Rendering configuration, supplied once per rendering pass.
#[derive(Debug)]
pub struct BlockContext {
    /// Operator pairs `(o, o')`: an operand of `o` that is a unary
    /// application of `o'` is displayed through `o'` instead.
    pub inverse_ops: Vec<(String, String)>,
    /// Operators drawn as a fraction.
    pub fraction_ops: Vec<String>,
    /// Operators drawn invisibly.
    pub conceal_ops: Vec<String>,
    /// Operator symbols from lowest-binding to tightest-binding; the
    /// position decides parenthesization.
    pub op_precedence: Vec<String>,
    /// Relation operators that split an expression into an aligned triple.
    pub relation_ops: Vec<String>,
}

/// The views of a list of symbols.
pub open spec fn sym_list(v: Seq<String>) -> Seq<Seq<char>> {
    v.map(|i: int, s: String| s@)
}

/// The position of `sym` in `v`, reading the first occurrence, or -1 when
/// absent.
pub open spec fn first_index_of(v: Seq<Seq<char>>, sym: Seq<char>) -> int
    decreases v.len(),
{
    if v.len() == 0 {
        -1
    } else if v[0] == sym {
        0
    } else {
        let rest = first_index_of(v.drop_first(), sym);
        if rest < 0 {
            -1
        } else {
            1 + rest
        }
    }
}

/// The display inverse registered for `sym`, reading the first pair whose
/// left component is `sym`.
pub open spec fn inverse_of(pairs: Seq<(Seq<char>, Seq<char>)>, sym: Seq<char>) -> Option<
    Seq<char>,
>
    decreases pairs.len(),
{
    if pairs.len() == 0 {
        None
    } else if pairs[0].0 == sym {
        Some(pairs[0].1)
    } else {
        inverse_of(pairs.drop_first(), sym)
    }
}

impl BlockContext {
    pub open spec fn fraction_syms(self) -> Seq<Seq<char>> {
        sym_list(self.fraction_ops@)
    }

    pub open spec fn conceal_syms(self) -> Seq<Seq<char>> {
        sym_list(self.conceal_ops@)
    }

    pub open spec fn precedence_syms(self) -> Seq<Seq<char>> {
        sym_list(self.op_precedence@)
    }

    pub open spec fn relation_syms(self) -> Seq<Seq<char>> {
        sym_list(self.relation_ops@)
    }

    pub open spec fn inverse_pairs(self) -> Seq<(Seq<char>, Seq<char>)> {
        self.inverse_ops@.map(|i: int, p: (String, String)| (p.0@, p.1@))
    }

    /// The precedence of `sym`: its position in the precedence order, with
    /// -1 for an unlisted symbol, which binds lower than everything listed.
    pub open spec fn precedence_of(self, sym: Seq<char>) -> int {
        first_index_of(self.precedence_syms(), sym)
    }
}

/// Whether a block for `child` must be parenthesized inside a container
/// whose operator is `parent_op`: exactly when `child`'s own top operator
/// binds strictly lower than `parent_op`, so that omitting parentheses
/// would change the parsed meaning.
pub open spec fn needs_parens(ctx: BlockContext, parent_op: Seq<char>, child: ExprModel) -> bool {
    match child {
        ExprModel::Operator { symbol, children } => ctx.precedence_of(symbol)
            < ctx.precedence_of(parent_op),
        _ => false,
    }
}

/// Add the parentheses tag when `p` holds.
pub open spec fn with_parens(m: BlockModel, p: bool) -> BlockModel {
    if p {
        BlockModel { kind: m.kind, tags: m.tags.push(BlockTag::Parentheses) }
    } else {
        m
    }
}

/// The block of one operator symbol, concealed when the displayed symbol
/// is a concealed operator.
pub open spec fn op_symbol_model(ctx: BlockContext, text: Seq<char>, path: Seq<usize>) -> BlockModel {
    BlockModel {
        kind: BlockKindModel::Symbol { text, address: path },
        tags: if ctx.conceal_syms().contains(text) {
            seq![BlockTag::Concealed]
        } else {
            Seq::empty()
        },
    }
}

/// Display-inversion: when `op` has a registered inverse `inv` and the
/// operand is a unary application of `inv` to some term, the pair of the
/// displayed symbol and that term; the underlying expression and its
/// addresses are unchanged, only the rendering differs.
pub open spec fn inverted_operand(ctx: BlockContext, op: Seq<char>, child: ExprModel) -> Option<
    (Seq<char>, ExprModel),
> {
    match inverse_of(ctx.inverse_pairs(), op) {
        Some(inv) => match child {
            ExprModel::Operator { symbol, children } => if symbol == inv && children.len() == 1 {
                Some((inv, children[0]))
            } else {
                None
            },
            _ => None,
        },
        None => None,
    }
}

/// The block tree of `e`, whose own address is `path`.
pub open spec fn spec_build(ctx: BlockContext, e: ExprModel, path: Seq<usize>) -> BlockModel
    decreases e, 0int,
{
    match e {
        ExprModel::Atom { symbol } => BlockModel {
            kind: BlockKindModel::Symbol { text: symbol, address: path },
            tags: Seq::empty(),
        },
        ExprModel::Operator { symbol, children } => if ctx.fraction_syms().contains(symbol)
            && children.len() == 2 {
            BlockModel {
                kind: BlockKindModel::FractionContainer {
                    parts: seq![
                        spec_build(ctx, children[0], path.push(0)),
                        spec_build(ctx, children[1], path.push(1)),
                    ],
                },
                tags: Seq::empty(),
            }
        } else if children.len() == 1 {
            BlockModel {
                kind: BlockKindModel::HorizontalContainer {
                    children: seq![
                        op_symbol_model(ctx, symbol, path),
                        with_parens(
                            spec_build(ctx, children[0], path.push(0)),
                            needs_parens(ctx, symbol, children[0]),
                        ),
                    ],
                },
                tags: Seq::empty(),
            }
        } else {
            BlockModel {
                kind: BlockKindModel::HorizontalContainer {
                    children: spec_row(ctx, symbol, children, path, children.len() as int),
                },
                tags: Seq::empty(),
            }
        },
    }
}

/// The blocks of the first `upto` operands of a horizontal row, with their
/// interleaved operator symbols.
pub open spec fn spec_row(
    ctx: BlockContext,
    op: Seq<char>,
    children: Seq<ExprModel>,
    path: Seq<usize>,
    upto: int,
) -> Seq<BlockModel>
    decreases children, 2int, upto,
        when upto <= children.len()
{
    if upto <= 0 {
        Seq::empty()
    } else {
        spec_row(ctx, op, children, path, upto - 1) + spec_cell(ctx, op, children, path, upto - 1)
    }
}

/// The blocks contributed by operand `i` of a horizontal row: the operand's
/// block, preceded, from the second operand on, by an operator symbol —
/// the registered inverse when display-inversion applies to this operand,
/// the operator itself otherwise.
pub open spec fn spec_cell(
    ctx: BlockContext,
    op: Seq<char>,
    children: Seq<ExprModel>,
    path: Seq<usize>,
    i: int,
) -> Seq<BlockModel>
    decreases children, 1int, 0int,
        when 0 <= i < children.len()
{
    let child = children[i];
    if i <= 0 {
        seq![
            with_parens(spec_build(ctx, child, path.push(i as usize)), needs_parens(ctx, op, child)),
        ]
    } else {
        match inverted_operand(ctx, op, child) {
            Some(pair) => seq![
                op_symbol_model(ctx, pair.0, path),
                with_parens(
                    spec_build(ctx, pair.1, path.push(i as usize).push(0)),
                    needs_parens(ctx, op, pair.1),
                ),
            ],
            None => seq![
                op_symbol_model(ctx, op, path),
                with_parens(
                    spec_build(ctx, child, path.push(i as usize)),
                    needs_parens(ctx, op, child),
                ),
            ],
        }
    }
}


/// Whether the top of `e` is a relation operator joining exactly two
/// sides, so that it can be displayed as an aligned triple.
pub open spec fn is_relation_split(ctx: BlockContext, e: ExprModel) -> bool {
    e matches ExprModel::Operator { symbol, children } && ctx.relation_syms().contains(symbol)
        && children.len() == 2
}

/// A copy of a path.
fn copy_path(path: &Vec<usize>) -> (r: Vec<usize>)
    ensures
        r@ == path@,
{
    let mut r: Vec<usize> = Vec::new();
    let n = path.len();
    #[verifier::loop_isolation(false)]
    for i in 0..n
        invariant
            r@ == path@.subrange(0, i as int),
    {
        r.push(path[i]);
        proof {
            assert(r@ =~= path@.subrange(0, i + 1 as int));
        }
    }
    proof {
        assert(r@ =~= path@);
    }
    r
}

/// Whether `sym` occurs in `list`.
fn sym_in(list: &Vec<String>, sym: &String) -> (r: bool)
    ensures
        r == sym_list(list@).contains(sym@),
{
    let n = list.len();
    #[verifier::loop_isolation(false)]
    for i in 0..n
        invariant
            forall|j: int| 0 <= j < i ==> sym_list(list@)[j] != sym@,
    {
        if list[i] == *sym {
            proof {
                assert(sym_list(list@)[i as int] == sym@);
            }
            return true;
        }
    }
    false
}

/// The position of the first occurrence of `sym` in `list`.
fn first_index_in(list: &Vec<String>, sym: &String) -> (r: Option<usize>)
    ensures
        (match r {
            Some(k) => k as int,
            None => -1,
        }) == first_index_of(sym_list(list@), sym@),
{
    let n = list.len();
    let mut i = n;
    let mut result: Option<usize> = None;
    #[verifier::loop_isolation(false)]
    while i > 0
        invariant
            i <= n,
            (match result {
                Some(k) => k as int - i as int,
                None => -1int,
            }) == first_index_of(sym_list(list@).subrange(i as int, n as int), sym@),
            result matches Some(k) ==> i <= k < n,
        decreases i,
    {
        i = i - 1;
        proof {
            assert(sym_list(list@).subrange(i as int, n as int).drop_first() =~= sym_list(
                list@,
            ).subrange(i + 1 as int, n as int));
            assert(sym_list(list@).subrange(i as int, n as int)[0] == list@[i as int]@);
        }
        if list[i] == *sym {
            result = Some(i);
        } else {
            if result.is_some() {
                result = Some(result.unwrap());
            }
        }
    }
    proof {
        assert(sym_list(list@).subrange(0, n as int) =~= sym_list(list@));
    }
    result
}

/// The display inverse registered for `sym`, when any.
fn inverse_in(ctx: &BlockContext, sym: &String) -> (r: Option<String>)
    ensures
        (match r {
            Some(s) => Some(s@),
            None => None::<Seq<char>>,
        }) == inverse_of(ctx.inverse_pairs(), sym@),
{
    let n = ctx.inverse_ops.len();
    let mut i = n;
    let mut result: Option<String> = None;
    #[verifier::loop_isolation(false)]
    while i > 0
        invariant
            i <= n,
            (match result {
                Some(s) => Some(s@),
                None => None::<Seq<char>>,
            }) == inverse_of(ctx.inverse_pairs().subrange(i as int, n as int), sym@),
        decreases i,
    {
        i = i - 1;
        proof {
            assert(ctx.inverse_pairs().subrange(i as int, n as int).drop_first()
                =~= ctx.inverse_pairs().subrange(i + 1 as int, n as int));
            assert(ctx.inverse_pairs().subrange(i as int, n as int)[0] == (
                ctx.inverse_ops@[i as int].0@,
                ctx.inverse_ops@[i as int].1@,
            ));
        }
        if ctx.inverse_ops[i].0 == *sym {
            result = Some(ctx.inverse_ops[i].1.clone());
        } else {
            if result.is_some() {
                result = Some(result.unwrap());
            }
        }
    }
    proof {
        assert(ctx.inverse_pairs().subrange(0, n as int) =~= ctx.inverse_pairs());
    }
    result
}

/// Whether `child_op` binds strictly lower than `parent_op`.
fn lower_precedence(ctx: &BlockContext, child_op: &String, parent_op: &String) -> (r: bool)
    ensures
        r == (ctx.precedence_of(child_op@) < ctx.precedence_of(parent_op@)),
{
    let ci = first_index_in(&ctx.op_precedence, child_op);
    let pi = first_index_in(&ctx.op_precedence, parent_op);
    match (ci, pi) {
        (Some(c), Some(p)) => c < p,
        (None, Some(_)) => true,
        _ => false,
    }
}

/// Whether the block for `child` must be parenthesized under `parent_op`.
fn child_needs_parens(ctx: &BlockContext, parent_op: &String, child: &Expression) -> (r: bool)
    ensures
        r == needs_parens(*ctx, parent_op@, child.model()),
{
    match child {
        Expression::Operator { symbol, children } => lower_precedence(ctx, symbol, parent_op),
        _ => false,
    }
}

/// The block of one operator symbol at `path`.
fn make_op_symbol(ctx: &BlockContext, text: &String, path: &Vec<usize>) -> (b: Block)
    ensures
        b.model() == op_symbol_model(*ctx, text@, path@),
{
    let mut tags: Vec<BlockTag> = Vec::new();
    if sym_in(&ctx.conceal_ops, text) {
        tags.push(BlockTag::Concealed);
        proof {
            assert(tags@ =~= seq![BlockTag::Concealed]);
        }
    } else {
        proof {
            assert(tags@ =~= Seq::<BlockTag>::empty());
        }
    }
    Block {
        kind: BlockKind::Symbol { text: text.clone(), address: Address::new(copy_path(path)) },
        tags,
    }
}

/// Add the parentheses tag when `p` holds.
fn parenthesize(b: Block, p: bool) -> (r: Block)
    ensures
        r.model() == with_parens(b.model(), p),
{
    if p {
        let mut r = b;
        r.tags.push(BlockTag::Parentheses);
        r
    } else {
        b
    }
}

/// Build the presentation tree of `expression`, whose own address is
/// `path`.  A fraction operator with two operands becomes a fraction
/// container; a unary operator becomes its symbol followed by its operand;
/// any other application becomes a horizontal row of operands interleaved
/// with operator symbols.  An operand that is a unary application of the
/// operator's registered inverse is displayed through the inverse symbol
/// applied to the negated term, whose addresses are unchanged.
fn build_at(expression: &Expression, ctx: &BlockContext, path: Vec<usize>) -> (b: Block)
    ensures
        b.model() == spec_build(*ctx, expression.model(), path@),
    decreases *expression,
{
    match expression {
        Expression::Atom { symbol } => {
            let b = Block {
                kind: BlockKind::Symbol { text: symbol.clone(), address: Address::new(path) },
                tags: Vec::new(),
            };
            proof {
                assert(b.tags@ =~= Seq::<BlockTag>::empty());
            }
            b
        },
        Expression::Operator { symbol, children } => {
            proof {
                lemma_exprs_model(children@);
                assert(decreases_to!(*expression => *children));
                assert(decreases_to!(*children => children@));
            }
            let is_fraction = sym_in(&ctx.fraction_ops, symbol);
            if is_fraction && children.len() == 2 {
                proof {
                    assert(decreases_to!(children@ => children@[0]));
                    assert(decreases_to!(children@ => children@[1]));
                }
                let mut p0 = copy_path(&path);
                p0.push(0);
                let num = build_at(&children[0], ctx, p0);
                let mut p1 = copy_path(&path);
                p1.push(1);
                let den = build_at(&children[1], ctx, p1);
                let b = Block {
                    kind: BlockKind::FractionContainer {
                        numerator: Box::new(num),
                        denominator: Box::new(den),
                    },
                    tags: Vec::new(),
                };
                proof {
                    assert(b.tags@ =~= Seq::<BlockTag>::empty());
                }
                b
            } else if children.len() == 1 {
                proof {
                    assert(decreases_to!(children@ => children@[0]));
                }
                let op_block = make_op_symbol(ctx, symbol, &path);
                let p = child_needs_parens(ctx, symbol, &children[0]);
                let mut p0 = copy_path(&path);
                p0.push(0);
                let child_block = parenthesize(build_at(&children[0], ctx, p0), p);
                let ghost om = op_block.model();
                let ghost cm = child_block.model();
                let mut row: Vec<Block> = Vec::new();
                row.push(op_block);
                row.push(child_block);
                let ghost row_view = row@;
                let b = Block {
                    kind: BlockKind::HorizontalContainer { children: row },
                    tags: Vec::new(),
                };
                proof {
                    lemma_blocks_model(row_view);
                    assert(blocks_model(row_view) =~= seq![om, cm]);
                    assert(b.tags@ =~= Seq::<BlockTag>::empty());
                }
                b
            } else {
                let n = children.len();
                let ghost cms = exprs_model(children@);
                let mut row: Vec<Block> = Vec::new();
                #[verifier::loop_isolation(false)]
                for i in 0..n
                    invariant
                        blocks_model(row@) == spec_row(*ctx, symbol@, cms, path@, i as int),
                {
                    proof {
                        assert(decreases_to!(children@ => children@[i as int]));
                    }
                    let child = &children[i];
                    let ghost rv0 = row@;
                    let ghost row0 = blocks_model(row@);
                    if i == 0 {
                        let p = child_needs_parens(ctx, symbol, child);
                        let mut cp = copy_path(&path);
                        cp.push(i);
                        let cb = parenthesize(build_at(child, ctx, cp), p);
                        row.push(cb);
                        proof {
                            lemma_blocks_model(rv0);
                            lemma_blocks_model(row@);
                            assert(blocks_model(row@) =~= row0 + spec_cell(
                                *ctx,
                                symbol@,
                                cms,
                                path@,
                                i as int,
                            ));
                        }
                    } else {
                        let mut inv_pair: Option<(String, &Expression)> = None;
                        let inv = inverse_in(ctx, symbol);
                        let ghost inv_spec = inverse_of(ctx.inverse_pairs(), symbol@);
                        if let Some(inv_sym) = inv {
                            match child {
                                Expression::Operator { symbol: csym, children: gch } => {
                                    if gch.len() == 1 && *csym == inv_sym {
                                        proof {
                                            lemma_exprs_model(gch@);
                                            assert(decreases_to!(*child => *gch));
                                            assert(decreases_to!(*gch => gch@));
                                            assert(decreases_to!(gch@ => gch@[0]));
                                            assert(inv_spec == Some(inv_sym@));
                                            assert(child.model() matches ExprModel::Operator {
                                                symbol: ms,
                                                children: mc,
                                            } && ms == inv_sym@ && mc.len() == 1 && mc[0]
                                                == expr_model(gch@[0]));
                                            assert(inverted_operand(*ctx, symbol@, child.model())
                                                == Some((inv_sym@, expr_model(gch@[0]))));
                                        }
                                        inv_pair = Some((inv_sym, &gch[0]));
                                    } else {
                                        proof {
                                            lemma_exprs_model(gch@);
                                            assert(inverted_operand(*ctx, symbol@, child.model())
                                                is None);
                                        }
                                    }
                                },
                                _ => {
                                    proof {
                                        assert(inverted_operand(*ctx, symbol@, child.model())
                                            is None);
                                    }
                                },
                            }
                        } else {
                            proof {
                                assert(inv_spec is None);
                                assert(inverted_operand(*ctx, symbol@, child.model()) is None);
                            }
                        }
                        proof {
                            if inv_pair is Some {
                                assert(inverted_operand(*ctx, symbol@, child.model()) == Some(
                                    ((inv_pair->Some_0).0@, (inv_pair->Some_0).1.model()),
                                ));
                            } else {
                                assert(inverted_operand(*ctx, symbol@, child.model()) is None);
                            }
                        }
                        match inv_pair {
                            Some((inv_sym, sub)) => {
                                let ob = make_op_symbol(ctx, &inv_sym, &path);
                                let p = child_needs_parens(ctx, symbol, sub);
                                let mut gp = copy_path(&path);
                                gp.push(i);
                                gp.push(0);
                                let cb = parenthesize(build_at(sub, ctx, gp), p);
                                row.push(ob);
                                row.push(cb);
                                proof {
                                    lemma_blocks_model(rv0);
                                    lemma_blocks_model(row@);
                                    assert(blocks_model(row@) =~= row0 + spec_cell(
                                        *ctx,
                                        symbol@,
                                        cms,
                                        path@,
                                        i as int,
                                    ));
                                }
                            },
                            None => {
                                let ob = make_op_symbol(ctx, symbol, &path);
                                let p = child_needs_parens(ctx, symbol, child);
                                let mut cp = copy_path(&path);
                                cp.push(i);
                                let cb = parenthesize(build_at(child, ctx, cp), p);
                                row.push(ob);
                                row.push(cb);
                                proof {
                                    lemma_blocks_model(rv0);
                                    lemma_blocks_model(row@);
                                    assert(blocks_model(row@) =~= row0 + spec_cell(
                                        *ctx,
                                        symbol@,
                                        cms,
                                        path@,
                                        i as int,
                                    ));
                                }
                            },
                        }
                    }
                    proof {
                        assert(spec_row(*ctx, symbol@, cms, path@, i + 1 as int) == spec_row(
                            *ctx,
                            symbol@,
                            cms,
                            path@,
                            i as int,
                        ) + spec_cell(*ctx, symbol@, cms, path@, i as int));
                    }
                }
                let b = Block {
                    kind: BlockKind::HorizontalContainer { children: row },
                    tags: Vec::new(),
                };
                proof {
                    assert(b.tags@ =~= Seq::<BlockTag>::empty());
                }
                b
            }
        },
    }
}

impl Block {
    /// The presentation tree of `expression`, whose root has the empty
    /// address.
    pub fn build(expression: &Expression, ctx: &BlockContext) -> (b: Block)
        ensures
            b.model() == spec_build(*ctx, expression.model(), Seq::<usize>::empty()),
    {
        let path: Vec<usize> = Vec::new();
        proof {
            assert(path@ =~= Seq::<usize>::empty());
        }
        build_at(expression, ctx, path)
    }

    /// Split a top-level relation into an aligned (left, relation, right)
    /// triple; any other expression is returned whole in the first
    /// component.
    pub fn build_alignable(expression: &Expression, ctx: &BlockContext) -> (r: (
        Option<Block>,
        Option<Block>,
        Option<Block>,
    ))
        ensures
            is_relation_split(*ctx, expression.model()) ==> {
                let children = expression.model()->Operator_children;
                &&& (r.0 matches Some(b) && b.model() == spec_build(
                    *ctx,
                    children[0],
                    seq![0usize],
                ))
                &&& (r.1 matches Some(m) && m.model() == (BlockModel {
                    kind: BlockKindModel::Symbol {
                        text: expression.model()->Operator_symbol,
                        address: Seq::empty(),
                    },
                    tags: Seq::empty(),
                }))
                &&& (r.2 matches Some(b) && b.model() == spec_build(
                    *ctx,
                    children[1],
                    seq![1usize],
                ))
            },
            !is_relation_split(*ctx, expression.model()) ==> (r.0 matches Some(b) && b.model()
                == spec_build(*ctx, expression.model(), Seq::<usize>::empty())) && r.1 is None
                && r.2 is None,
            (opt_block_model(r.0), opt_block_model(r.1), opt_block_model(r.2)) == spec_alignable(
                *ctx,
                expression.model(),
            ),
    {
        match expression {
            Expression::Operator { symbol, children } => {
                proof {
                    lemma_exprs_model(children@);
                }
                if children.len() == 2 && sym_in(&ctx.relation_ops, symbol) {
                    let mut p0: Vec<usize> = Vec::new();
                    p0.push(0);
                    proof {
                        assert(p0@ =~= seq![0usize]);
                    }
                    let lhs = build_at(&children[0], ctx, p0);
                    let mid = Block {
                        kind: BlockKind::Symbol {
                            text: symbol.clone(),
                            address: Address::new(Vec::new()),
                        },
                        tags: Vec::new(),
                    };
                    let mut p1: Vec<usize> = Vec::new();
                    p1.push(1);
                    proof {
                        assert(p1@ =~= seq![1usize]);
                    }
                    let rhs = build_at(&children[1], ctx, p1);
                    proof {
                        assert(mid.tags@ =~= Seq::<BlockTag>::empty());
                        assert(mid.kind->Symbol_address.path@ =~= Seq::<usize>::empty());
                    }
                    (Some(lhs), Some(mid), Some(rhs))
                } else {
                    (Some(Self::build(expression, ctx)), None, None)
                }
            },
            _ => (Some(Self::build(expression, ctx)), None, None),
        }
    }
}

/// What [`Block::build_alignable`] returns, at the model level: the sides
/// and relation symbol of a relation split, or the whole tree alone.
pub open spec fn spec_alignable(ctx: BlockContext, e: ExprModel) -> (
    Option<BlockModel>,
    Option<BlockModel>,
    Option<BlockModel>,
) {
    if is_relation_split(ctx, e) {
        (
            Some(spec_build(ctx, e->Operator_children[0], seq![0usize])),
            Some(
                BlockModel {
                    kind: BlockKindModel::Symbol { text: e->Operator_symbol, address: Seq::empty() },
                    tags: Seq::empty(),
                },
            ),
            Some(spec_build(ctx, e->Operator_children[1], seq![1usize])),
        )
    } else {
        (Some(spec_build(ctx, e, Seq::empty())), None, None)
    }
}

pub open spec fn opt_block_model(o: Option<Block>) -> Option<BlockModel> {
    match o {
        Some(b) => Some(b.model()),
        None => None,
    }
}

/// The expression actually displayed for operand `i` of a row: the negated
/// term when display-inversion applies, the operand itself otherwise.
pub open spec fn displayed_operand(
    ctx: BlockContext,
    op: Seq<char>,
    children: Seq<ExprModel>,
    i: int,
) -> ExprModel {
    if i > 0 && inverted_operand(ctx, op, children[i]) is Some {
        (inverted_operand(ctx, op, children[i])->Some_0).1
    } else {
        children[i]
    }
}

/// A freshly built block carries no tags of its own.
proof fn lemma_spec_build_no_tags(ctx: BlockContext, e: ExprModel, path: Seq<usize>)
    ensures
        spec_build(ctx, e, path).tags == Seq::<BlockTag>::empty(),
{
}

/// `with_parens` decides the parentheses tag exactly.
proof fn lemma_with_parens_tag(b: BlockModel, p: bool)
    requires
        b.tags == Seq::<BlockTag>::empty(),
    ensures
        with_parens(b, p).tags.contains(BlockTag::Parentheses) == p,
{
    if p {
        assert(with_parens(b, p).tags[0] == BlockTag::Parentheses);
    }
}

/// Law: inside a horizontal row, an operand's block carries the
/// parentheses tag exactly when the displayed operand's own top operator
/// binds strictly lower than the row's operator; an operand of equal or
/// higher precedence, or a leaf, is never parenthesized.
pub proof fn lemma_parenthesization(
    ctx: BlockContext,
    op: Seq<char>,
    children: Seq<ExprModel>,
    path: Seq<usize>,
    i: int,
)
    requires
        0 <= i < children.len(),
    ensures
        spec_cell(ctx, op, children, path, i).last().tags.contains(BlockTag::Parentheses)
            == needs_parens(ctx, op, displayed_operand(ctx, op, children, i)),
{
    if i == 0 {
        let base = spec_build(ctx, children[0], path.push(0));
        lemma_spec_build_no_tags(ctx, children[0], path.push(0));
        lemma_with_parens_tag(base, needs_parens(ctx, op, children[0]));
    } else {
        match inverted_operand(ctx, op, children[i]) {
            Some(pair) => {
                let sub_path = path.push(i as usize).push(0);
                let base = spec_build(ctx, pair.1, sub_path);
                lemma_spec_build_no_tags(ctx, pair.1, sub_path);
                lemma_with_parens_tag(base, needs_parens(ctx, op, pair.1));
            },
            None => {
                let base = spec_build(ctx, children[i], path.push(i as usize));
                lemma_spec_build_no_tags(ctx, children[i], path.push(i as usize));
                lemma_with_parens_tag(base, needs_parens(ctx, op, children[i]));
            },
        }
    }
}
} // verus!
