//! The body of a definition before lowering: a typed expression tree.
//!
//! The host holds the expressions of a body in one table and names each by
//! its index there. The exported body is a tree that owns its children.

use vstd::prelude::*;
use crate::error::{Fatal, HostKind};
use crate::ids::{
    exported_span, DefId, ErrorGuaranteed, FieldIdx, HostSpan, Local, Mutability, Span, Ty,
};
use crate::state::{
    lemma_extends_twice, lemma_grown_by_none, lemma_grown_extends, lemma_grown_twice, Footprint,
    State,
};

verus! {

/// An expression of a body, by its index in the body's table.
#[derive(Debug, Clone, Copy, PartialEq, Eq, Hash, Structural)]
pub struct ExprId {
    pub index: u32,
}

/// A literal.
#[derive(Debug, Clone, Copy, PartialEq, Eq, Hash, Structural)]
pub enum LitKind {
    Bool(bool),
    Int(u128),
    /// Stands where the body could not be had; an error was reported for it.
    Error(ErrorGuaranteed),
}

/// An operator of one operand.
#[derive(Debug, Clone, Copy, PartialEq, Eq, Hash, Structural)]
pub enum UnOp {
    Not,
    Neg,
}

/// An operator of two operands.
#[derive(Debug, Clone, Copy, PartialEq, Eq, Hash, Structural)]
pub enum BinOp {
    Add,
    Sub,
    Mul,
    Div,
    Rem,
    BitXor,
    BitAnd,
    BitOr,
    Shl,
    Shr,
    Eq,
    Lt,
    Le,
    Ne,
    Ge,
    Gt,
}

/// An operator that evaluates its right operand only where it must.
#[derive(Debug, Clone, Copy, PartialEq, Eq, Hash, Structural)]
pub enum LogicalOp {
    And,
    Or,
}

/// A list of expressions of the host's table, by their indices: the
/// arguments of a call, the components of a tuple, the statements of a block.
#[derive(Debug, PartialEq, Eq)]
pub enum ExprIds {
    Nil,
    Cons(ExprId, Box<ExprIds>),
}

impl ExprIds {
    /// The indices of the list, first to last.
    pub open spec fn view(&self) -> Seq<ExprId>
        decreases self,
    {
        match self {
            ExprIds::Nil => Seq::empty(),
            ExprIds::Cons(head, tail) => seq![*head] + tail.view(),
        }
    }

    /// The list of the indices `ids`, in their order.
    pub fn from_vec(ids: Vec<ExprId>) -> (list: ExprIds)
        ensures
            list@ == ids@,
    {
        let mut list = ExprIds::Nil;
        let mut rest = ids;
        while rest.len() > 0
            invariant
                rest@ + list@ == ids@,
            decreases rest.len(),
        {
            let ghost before = rest@;
            let last = rest.pop().unwrap();
            proof {
                assert(before == rest@.push(last));
                assert(rest@ + (seq![last] + list@) =~= before + list@);
            }
            list = ExprIds::Cons(last, Box::new(list));
        }
        assert(rest@ + list@ =~= list@);
        list
    }
}

impl Clone for ExprIds {
    fn clone(&self) -> (copy: Self)
        ensures
            copy == *self,
        decreases self,
    {
        match self {
            ExprIds::Nil => ExprIds::Nil,
            ExprIds::Cons(head, tail) => ExprIds::Cons(*head, Box::new((**tail).clone())),
        }
    }
}

/// What an expression of the host's table is; its operands are named by
/// their indices.
#[derive(Debug, PartialEq, Eq)]
#[allow(inconsistent_fields)]
pub enum ThirExprKind {
    Literal { lit: LitKind, neg: bool },
    VarRef { local: Local },
    /// An expression in the scope that ends its temporaries.
    Scope { value: ExprId },
    Unary { op: UnOp, arg: ExprId },
    Deref { arg: ExprId },
    Borrow { mutability: Mutability, arg: ExprId },
    Cast { source: ExprId },
    Field { lhs: ExprId, name: FieldIdx },
    Binary { op: BinOp, lhs: ExprId, rhs: ExprId },
    LogicalOp { op: LogicalOp, lhs: ExprId, rhs: ExprId },
    Index { lhs: ExprId, index: ExprId },
    Assign { lhs: ExprId, rhs: ExprId },
    If { cond: ExprId, then_branch: ExprId, else_branch: Option<ExprId> },
    Return { value: Option<ExprId> },
    Call { fun: ExprId, args: ExprIds },
    Tuple { fields: ExprIds },
    /// A block: the expressions that it evaluates one after another, and the
    /// one whose value it has.
    Block { stmts: ExprIds, expr: Option<ExprId> },
    /// An expression of a kind that has no exported form yet.
    Unsupported(HostKind),
}

/// An expression of the host's table.
#[derive(Debug, PartialEq, Eq)]
pub struct ThirExpr {
    pub kind: ThirExprKind,
    pub ty: Ty,
    pub span: HostSpan,
}

/// The expressions of one body as the host holds them.
#[derive(Debug, PartialEq, Eq)]
pub struct Thir {
    pub exprs: Vec<ThirExpr>,
}

impl View for Thir {
    type V = Seq<ThirExpr>;

    open spec fn view(&self) -> Seq<ThirExpr> {
        self.exprs@
    }
}

impl Clone for ThirExprKind {
    fn clone(&self) -> (copy: Self)
        ensures
            copy == *self,
    {
        match self {
            ThirExprKind::Literal { lit, neg } => ThirExprKind::Literal { lit: *lit, neg: *neg },
            ThirExprKind::VarRef { local } => ThirExprKind::VarRef { local: *local },
            ThirExprKind::Scope { value } => ThirExprKind::Scope { value: *value },
            ThirExprKind::Unary { op, arg } => ThirExprKind::Unary { op: *op, arg: *arg },
            ThirExprKind::Deref { arg } => ThirExprKind::Deref { arg: *arg },
            ThirExprKind::Borrow { mutability, arg } => ThirExprKind::Borrow {
                mutability: *mutability,
                arg: *arg,
            },
            ThirExprKind::Cast { source } => ThirExprKind::Cast { source: *source },
            ThirExprKind::Field { lhs, name } => ThirExprKind::Field { lhs: *lhs, name: *name },
            ThirExprKind::Binary { op, lhs, rhs } => ThirExprKind::Binary {
                op: *op,
                lhs: *lhs,
                rhs: *rhs,
            },
            ThirExprKind::LogicalOp { op, lhs, rhs } => ThirExprKind::LogicalOp {
                op: *op,
                lhs: *lhs,
                rhs: *rhs,
            },
            ThirExprKind::Index { lhs, index } => ThirExprKind::Index { lhs: *lhs, index: *index },
            ThirExprKind::Assign { lhs, rhs } => ThirExprKind::Assign { lhs: *lhs, rhs: *rhs },
            ThirExprKind::If { cond, then_branch, else_branch } => ThirExprKind::If {
                cond: *cond,
                then_branch: *then_branch,
                else_branch: *else_branch,
            },
            ThirExprKind::Return { value } => ThirExprKind::Return { value: *value },
            ThirExprKind::Call { fun, args } => ThirExprKind::Call { fun: *fun, args: args.clone() },
            ThirExprKind::Tuple { fields } => ThirExprKind::Tuple { fields: fields.clone() },
            ThirExprKind::Block { stmts, expr } => ThirExprKind::Block {
                stmts: stmts.clone(),
                expr: *expr,
            },
            ThirExprKind::Unsupported(kind) => ThirExprKind::Unsupported(*kind),
        }
    }
}

impl Clone for ThirExpr {
    fn clone(&self) -> (copy: Self)
        ensures
            copy == *self,
    {
        ThirExpr { kind: self.kind.clone(), ty: self.ty.clone(), span: self.span }
    }
}

impl Clone for Thir {
    fn clone(&self) -> (copy: Self)
        ensures
            copy@ == self@,
    {
        let mut exprs: Vec<ThirExpr> = Vec::new();
        let mut i: usize = 0;
        while i < self.exprs.len()
            invariant
                i <= self.exprs.len(),
                exprs@ == self.exprs@.take(i as int),
            decreases self.exprs.len() - i,
        {
            exprs.push(self.exprs[i].clone());
            assert(self.exprs@.take(i + 1) =~= self.exprs@.take(i as int).push(self.exprs@[i as int]));
            i = i + 1;
        }
        assert(self.exprs@.take(i as int) =~= self.exprs@);
        Thir { exprs }
    }
}

/// An exported expression.
#[derive(Debug, PartialEq, Eq)]
pub struct Expr {
    pub ty: Ty,
    pub span: Span,
    pub contents: ExprKind,
}

/// What an exported expression is.
#[derive(Debug, PartialEq, Eq)]
#[allow(inconsistent_fields)]
pub enum ExprKind {
    Literal { lit: LitKind, neg: bool },
    VarRef { local: Local },
    Scope { value: Box<Expr> },
    Unary { op: UnOp, arg: Box<Expr> },
    Deref { arg: Box<Expr> },
    Borrow { mutability: Mutability, arg: Box<Expr> },
    Cast { source: Box<Expr> },
    Field { lhs: Box<Expr>, name: FieldIdx },
    Binary { op: BinOp, lhs: Box<Expr>, rhs: Box<Expr> },
    LogicalOp { op: LogicalOp, lhs: Box<Expr>, rhs: Box<Expr> },
    Index { lhs: Box<Expr>, index: Box<Expr> },
    Assign { lhs: Box<Expr>, rhs: Box<Expr> },
    If { cond: Box<Expr>, then_branch: Box<Expr>, else_branch: Option<Box<Expr>> },
    Return { value: Option<Box<Expr>> },
    Call { fun: Box<Expr>, args: ExprList },
    Tuple { fields: ExprList },
    Block { stmts: ExprList, expr: Option<Box<Expr>> },
}

/// A list of exported expressions.
#[derive(Debug, PartialEq, Eq)]
pub enum ExprList {
    Nil,
    Cons(Box<Expr>, Box<ExprList>),
}

impl ExprList {
    /// The expressions of the list, first to last.
    pub open spec fn view(&self) -> Seq<Expr>
        decreases self,
    {
        match self {
            ExprList::Nil => Seq::empty(),
            ExprList::Cons(head, tail) => seq![**head] + tail.view(),
        }
    }
}

/// The list of the expressions `trees`, then those of `tail`.
pub open spec fn list_before(trees: Seq<Expr>, tail: ExprList) -> ExprList
    decreases trees.len(),
{
    if trees.len() == 0 {
        tail
    } else {
        list_before(trees.drop_last(), ExprList::Cons(Box::new(trees.last()), Box::new(tail)))
    }
}

/// The list of the expressions `trees`, in their order.
pub open spec fn list_of(trees: Seq<Expr>) -> ExprList {
    list_before(trees, ExprList::Nil)
}

/// A list that is put together holds what it was put together from.
pub proof fn lemma_list_before_view(trees: Seq<Expr>, tail: ExprList)
    ensures
        list_before(trees, tail)@ == trees + tail@,
    decreases trees.len(),
{
    if trees.len() == 0 {
        assert(trees + tail@ =~= tail@);
    } else {
        let next = ExprList::Cons(Box::new(trees.last()), Box::new(tail));
        lemma_list_before_view(trees.drop_last(), next);
        assert(trees.drop_last() + (seq![trees.last()] + tail@) =~= trees + tail@);
    }
}

/// The expression that stands for a body that could not be had: an error
/// literal of the type that has no values.
pub open spec fn error_expr(span: HostSpan) -> ThirExpr {
    ThirExpr {
        kind: ThirExprKind::Literal { lit: LitKind::Error(ErrorGuaranteed), neg: false },
        ty: Ty::Never,
        span,
    }
}

/// Makes the body that stands for one that could not be had and for which
/// the error `guar` was reported: its only expression is an error literal at
/// `span`, and that is its root.
pub fn dummy_thir_body(span: HostSpan, guar: ErrorGuaranteed) -> (body: (Thir, ExprId))
    ensures
        body.0@ == seq![error_expr(span)],
        body.1 == (ExprId { index: 0 }),
{
    let mut exprs: Vec<ThirExpr> = Vec::new();
    exprs.push(
        ThirExpr {
            kind: ThirExprKind::Literal { lit: LitKind::Error(guar), neg: false },
            ty: Ty::Never,
            span,
        },
    );
    assert(exprs@ =~= seq![error_expr(span)]);
    (Thir { exprs }, ExprId { index: 0 })
}

/// The operands of an expression of kind `kind`, in the order in which they
/// are translated.
pub open spec fn operand_ids(kind: ThirExprKind) -> Seq<ExprId> {
    match kind {
        ThirExprKind::Literal { .. } => seq![],
        ThirExprKind::VarRef { .. } => seq![],
        ThirExprKind::Scope { value } => seq![value],
        ThirExprKind::Unary { arg, .. } => seq![arg],
        ThirExprKind::Deref { arg } => seq![arg],
        ThirExprKind::Borrow { arg, .. } => seq![arg],
        ThirExprKind::Cast { source } => seq![source],
        ThirExprKind::Field { lhs, .. } => seq![lhs],
        ThirExprKind::Binary { lhs, rhs, .. } => seq![lhs, rhs],
        ThirExprKind::LogicalOp { lhs, rhs, .. } => seq![lhs, rhs],
        ThirExprKind::Index { lhs, index } => seq![lhs, index],
        ThirExprKind::Assign { lhs, rhs } => seq![lhs, rhs],
        ThirExprKind::If { cond, then_branch, else_branch } => match else_branch {
            Some(other) => seq![cond, then_branch, other],
            None => seq![cond, then_branch],
        },
        ThirExprKind::Return { value } => match value {
            Some(value) => seq![value],
            None => seq![],
        },
        ThirExprKind::Call { fun, args } => seq![fun] + args@,
        ThirExprKind::Tuple { fields } => fields@,
        ThirExprKind::Block { stmts, expr } => match expr {
            Some(value) => stmts@.push(value),
            None => stmts@,
        },
        ThirExprKind::Unsupported(_) => seq![],
    }
}

/// The exported expression of kind `kind` over the trees `trees` of its
/// operands; a kind that has no exported form is refused.
pub open spec fn built(kind: ThirExprKind, trees: Seq<Expr>) -> Result<ExprKind, Fatal> {
    match kind {
        ThirExprKind::Literal { lit, neg } => Ok(ExprKind::Literal { lit, neg }),
        ThirExprKind::VarRef { local } => Ok(ExprKind::VarRef { local }),
        ThirExprKind::Scope { .. } => Ok(ExprKind::Scope { value: Box::new(trees[0]) }),
        ThirExprKind::Unary { op, .. } => Ok(ExprKind::Unary { op, arg: Box::new(trees[0]) }),
        ThirExprKind::Deref { .. } => Ok(ExprKind::Deref { arg: Box::new(trees[0]) }),
        ThirExprKind::Borrow { mutability, .. } => Ok(
            ExprKind::Borrow { mutability, arg: Box::new(trees[0]) },
        ),
        ThirExprKind::Cast { .. } => Ok(ExprKind::Cast { source: Box::new(trees[0]) }),
        ThirExprKind::Field { name, .. } => Ok(ExprKind::Field { lhs: Box::new(trees[0]), name }),
        ThirExprKind::Binary { op, .. } => Ok(
            ExprKind::Binary { op, lhs: Box::new(trees[0]), rhs: Box::new(trees[1]) },
        ),
        ThirExprKind::LogicalOp { op, .. } => Ok(
            ExprKind::LogicalOp { op, lhs: Box::new(trees[0]), rhs: Box::new(trees[1]) },
        ),
        ThirExprKind::Index { .. } => Ok(
            ExprKind::Index { lhs: Box::new(trees[0]), index: Box::new(trees[1]) },
        ),
        ThirExprKind::Assign { .. } => Ok(
            ExprKind::Assign { lhs: Box::new(trees[0]), rhs: Box::new(trees[1]) },
        ),
        ThirExprKind::If { else_branch, .. } => Ok(
            ExprKind::If {
                cond: Box::new(trees[0]),
                then_branch: Box::new(trees[1]),
                else_branch: if else_branch is Some {
                    Some(Box::new(trees[2]))
                } else {
                    None
                },
            },
        ),
        ThirExprKind::Return { value } => Ok(
            ExprKind::Return {
                value: if value is Some {
                    Some(Box::new(trees[0]))
                } else {
                    None
                },
            },
        ),
        ThirExprKind::Call { .. } => Ok(
            ExprKind::Call { fun: Box::new(trees[0]), args: list_of(trees.skip(1)) },
        ),
        ThirExprKind::Tuple { .. } => Ok(ExprKind::Tuple { fields: list_of(trees) }),
        ThirExprKind::Block { stmts, expr } => Ok(
            ExprKind::Block {
                stmts: list_of(trees.take(stmts@.len() as int)),
                expr: if expr is Some {
                    Some(Box::new(trees[stmts@.len() as int]))
                } else {
                    None
                },
            },
        ),
        ThirExprKind::Unsupported(kind) => Err(Fatal::NotYetTranslated(kind)),
    }
}

/// The exported tree of the operand `operand` of the expression `parent`:
/// an operand must stand before its expression in the table.
pub open spec fn operand_tree(exprs: Seq<ThirExpr>, parent: ExprId, operand: ExprId) -> Result<
    Expr,
    Fatal,
>
    decreases parent.index, 0nat, 0nat,
{
    if operand.index < parent.index {
        expr_of(exprs, operand)
    } else {
        Err(Fatal::ExprOutOfOrder(parent.index))
    }
}

/// The exported trees of the operands `operands` of the expression `parent`,
/// or the failure of the first that has none.
pub open spec fn operand_trees(exprs: Seq<ThirExpr>, parent: ExprId, operands: Seq<ExprId>)
    -> Result<Seq<Expr>, Fatal>
    decreases parent.index, 1nat, operands.len(),
{
    if operands.len() == 0 {
        Ok(Seq::empty())
    } else {
        match operand_tree(exprs, parent, operands[0]) {
            Err(e) => Err(e),
            Ok(first) => match operand_trees(exprs, parent, operands.skip(1)) {
                Err(e) => Err(e),
                Ok(rest) => Ok(seq![first] + rest),
            },
        }
    }
}

/// The exported tree of the expression `id` of the table `exprs`.
pub open spec fn expr_of(exprs: Seq<ThirExpr>, id: ExprId) -> Result<Expr, Fatal>
    decreases id.index, 2nat, 0nat,
{
    if id.index >= exprs.len() {
        Err(Fatal::UnknownExpr(id.index))
    } else {
        let expr = exprs[id.index as int];
        match operand_trees(exprs, id, operand_ids(expr.kind)) {
            Err(e) => Err(e),
            Ok(trees) => match built(expr.kind, trees) {
                Err(e) => Err(e),
                Ok(contents) => Ok(Expr { ty: expr.ty, span: exported_span(expr.span), contents }),
            },
        }
    }
}

/// The host spans of the expressions that the tree of the operand `operand`
/// of `parent` is made of.
pub open spec fn operand_spans(exprs: Seq<ThirExpr>, parent: ExprId, operand: ExprId) -> Set<
    HostSpan,
>
    decreases parent.index, 0nat, 0nat,
{
    if operand.index < parent.index {
        expr_spans(exprs, operand)
    } else {
        Set::empty()
    }
}

/// The host spans of the expressions that the trees of the operands
/// `operands` of `parent` are made of.
pub open spec fn operands_spans(exprs: Seq<ThirExpr>, parent: ExprId, operands: Seq<ExprId>)
    -> Set<HostSpan>
    decreases parent.index, 1nat, operands.len(),
{
    if operands.len() == 0 {
        Set::empty()
    } else {
        operands_spans(exprs, parent, operands.drop_last()) + operand_spans(
            exprs,
            parent,
            operands.last(),
        )
    }
}

/// The host spans of the expressions that the tree of the expression `id`
/// is made of.
pub open spec fn expr_spans(exprs: Seq<ThirExpr>, id: ExprId) -> Set<HostSpan>
    decreases id.index, 2nat, 0nat,
{
    if id.index >= exprs.len() {
        Set::empty()
    } else {
        let expr = exprs[id.index as int];
        set![expr.span] + operands_spans(exprs, id, operand_ids(expr.kind))
    }
}

/// The spans, and no definition.
pub open spec fn only_spans(spans: Set<HostSpan>) -> Footprint {
    Footprint { spans, def_ids: Set::empty() }
}

/// Adding two sets of spans one after the other is adding their union.
proof fn lemma_spans_twice(
    first: &State,
    second: &State,
    third: &State,
    a: Set<HostSpan>,
    b: Set<HostSpan>,
)
    requires
        second.grown_by(first, only_spans(a)),
        third.grown_by(second, only_spans(b)),
    ensures
        third.grown_by(first, only_spans(a + b)),
{
    lemma_grown_twice(first, second, third, only_spans(a), only_spans(b));
    assert(only_spans(a).and(only_spans(b)).def_ids =~= Set::<DefId>::empty());
}

/// The trees `done`, then those of `outcome`, or its failure.
pub open spec fn after(done: Seq<Expr>, outcome: Result<Seq<Expr>, Fatal>) -> Result<
    Seq<Expr>,
    Fatal,
> {
    match outcome {
        Err(e) => Err(e),
        Ok(rest) => Ok(done + rest),
    }
}

/// The mathematical value of the trees of some operands.
pub open spec fn trees_view(result: Result<Vec<Expr>, Fatal>) -> Result<Seq<Expr>, Fatal> {
    match result {
        Ok(trees) => Ok(trees@),
        Err(e) => Err(e),
    }
}

/// Adds the indices of `ids` to `operands`.
fn push_ids(operands: &mut Vec<ExprId>, ids: &ExprIds)
    ensures
        final(operands)@ == old(operands)@ + ids@,
    decreases ids,
{
    match ids {
        ExprIds::Nil => {
            assert(operands@ + ids@ =~= operands@);
        },
        ExprIds::Cons(head, tail) => {
            operands.push(*head);
            push_ids(operands, &**tail);
            assert(old(operands)@.push(*head) + tail@ =~= old(operands)@ + ids@);
        },
    }
}

/// Lists the operands of an expression of kind `kind`.
fn operands_of(kind: &ThirExprKind) -> (operands: Vec<ExprId>)
    ensures
        operands@ == operand_ids(*kind),
{
    let mut operands: Vec<ExprId> = Vec::new();
    match *kind {
        ThirExprKind::Literal { .. } => {},
        ThirExprKind::VarRef { .. } => {},
        ThirExprKind::Scope { value } => {
            operands.push(value);
        },
        ThirExprKind::Unary { arg, .. } => {
            operands.push(arg);
        },
        ThirExprKind::Deref { arg } => {
            operands.push(arg);
        },
        ThirExprKind::Borrow { arg, .. } => {
            operands.push(arg);
        },
        ThirExprKind::Cast { source } => {
            operands.push(source);
        },
        ThirExprKind::Field { lhs, .. } => {
            operands.push(lhs);
        },
        ThirExprKind::Binary { lhs, rhs, .. } => {
            operands.push(lhs);
            operands.push(rhs);
        },
        ThirExprKind::LogicalOp { lhs, rhs, .. } => {
            operands.push(lhs);
            operands.push(rhs);
        },
        ThirExprKind::Index { lhs, index } => {
            operands.push(lhs);
            operands.push(index);
        },
        ThirExprKind::Assign { lhs, rhs } => {
            operands.push(lhs);
            operands.push(rhs);
        },
        ThirExprKind::If { cond, then_branch, else_branch } => {
            operands.push(cond);
            operands.push(then_branch);
            match else_branch {
                Some(other) => {
                    operands.push(other);
                },
                None => {},
            }
        },
        ThirExprKind::Return { value } => {
            match value {
                Some(value) => {
                    operands.push(value);
                },
                None => {},
            }
        },
        ThirExprKind::Call { fun, ref args } => {
            operands.push(fun);
            push_ids(&mut operands, args);
        },
        ThirExprKind::Tuple { ref fields } => {
            push_ids(&mut operands, fields);
        },
        ThirExprKind::Block { ref stmts, expr } => {
            push_ids(&mut operands, stmts);
            match expr {
                Some(value) => {
                    operands.push(value);
                },
                None => {},
            }
        },
        ThirExprKind::Unsupported(_) => {},
    }
    assert(operands@ =~= operand_ids(*kind));
    operands
}

/// Takes the trees of `trees` from the place `keep` on, as a list.
fn take_list(trees: &mut Vec<Expr>, keep: usize) -> (list: ExprList)
    requires
        keep <= old(trees)@.len(),
    ensures
        final(trees)@ == old(trees)@.take(keep as int),
        list == list_of(old(trees)@.skip(keep as int)),
{
    let mut list = ExprList::Nil;
    let ghost all = trees@;
    proof {
        assert(all.subrange(keep as int, all.len() as int) =~= all.skip(keep as int));
        assert(all.take(all.len() as int) =~= all);
    }
    while trees.len() > keep
        invariant
            keep <= trees@.len() <= all.len(),
            trees@ == all.take(trees@.len() as int),
            list_before(all.subrange(keep as int, trees@.len() as int), list) == list_of(
                all.skip(keep as int),
            ),
        decreases trees.len(),
    {
        let ghost m = trees@.len() as int;
        let last = trees.pop().unwrap();
        proof {
            let part = all.subrange(keep as int, m);
            assert(part.last() == last);
            assert(part.drop_last() =~= all.subrange(keep as int, m - 1));
            assert(all.take(m).drop_last() =~= all.take(m - 1));
        }
        list = ExprList::Cons(Box::new(last), Box::new(list));
    }
    proof {
        assert(all.subrange(keep as int, keep as int) =~= Seq::<Expr>::empty());
    }
    list
}

/// Takes the last tree of `trees`.
fn take_last(trees: &mut Vec<Expr>) -> (last: Box<Expr>)
    requires
        old(trees)@.len() > 0,
    ensures
        *last == old(trees)@.last(),
        final(trees)@ == old(trees)@.drop_last(),
{
    Box::new(trees.pop().unwrap())
}

/// Puts the trees of the operands under an expression of kind `kind`.
fn build(kind: &ThirExprKind, trees: Vec<Expr>) -> (result: Result<ExprKind, Fatal>)
    requires
        trees@.len() == operand_ids(*kind).len(),
    ensures
        result == built(*kind, trees@),
{
    let mut trees = trees;
    match *kind {
        ThirExprKind::Literal { lit, neg } => Ok(ExprKind::Literal { lit, neg }),
        ThirExprKind::VarRef { local } => Ok(ExprKind::VarRef { local }),
        ThirExprKind::Scope { .. } => Ok(ExprKind::Scope { value: take_last(&mut trees) }),
        ThirExprKind::Unary { op, .. } => Ok(ExprKind::Unary { op, arg: take_last(&mut trees) }),
        ThirExprKind::Deref { .. } => Ok(ExprKind::Deref { arg: take_last(&mut trees) }),
        ThirExprKind::Borrow { mutability, .. } => Ok(
            ExprKind::Borrow { mutability, arg: take_last(&mut trees) },
        ),
        ThirExprKind::Cast { .. } => Ok(ExprKind::Cast { source: take_last(&mut trees) }),
        ThirExprKind::Field { name, .. } => Ok(
            ExprKind::Field { lhs: take_last(&mut trees), name },
        ),
        ThirExprKind::Binary { op, .. } => {
            let rhs = take_last(&mut trees);
            let lhs = take_last(&mut trees);
            Ok(ExprKind::Binary { op, lhs, rhs })
        },
        ThirExprKind::LogicalOp { op, .. } => {
            let rhs = take_last(&mut trees);
            let lhs = take_last(&mut trees);
            Ok(ExprKind::LogicalOp { op, lhs, rhs })
        },
        ThirExprKind::Index { .. } => {
            let index = take_last(&mut trees);
            let lhs = take_last(&mut trees);
            Ok(ExprKind::Index { lhs, index })
        },
        ThirExprKind::Assign { .. } => {
            let rhs = take_last(&mut trees);
            let lhs = take_last(&mut trees);
            Ok(ExprKind::Assign { lhs, rhs })
        },
        ThirExprKind::If { else_branch, .. } => {
            let other = match else_branch {
                Some(_) => Some(take_last(&mut trees)),
                None => None,
            };
            let then_branch = take_last(&mut trees);
            let cond = take_last(&mut trees);
            Ok(ExprKind::If { cond, then_branch, else_branch: other })
        },
        ThirExprKind::Return { value } => {
            let value = match value {
                Some(_) => Some(take_last(&mut trees)),
                None => None,
            };
            Ok(ExprKind::Return { value })
        },
        ThirExprKind::Call { ref args, .. } => {
            let ghost all = trees@;
            let args = take_list(&mut trees, 1);
            proof {
                assert(all.take(1).last() == all[0]);
            }
            let fun = take_last(&mut trees);
            Ok(ExprKind::Call { fun, args })
        },
        ThirExprKind::Tuple { .. } => {
            let ghost all = trees@;
            let fields = take_list(&mut trees, 0);
            proof {
                assert(all.skip(0) =~= all);
            }
            Ok(ExprKind::Tuple { fields })
        },
        ThirExprKind::Block { ref stmts, expr } => {
            let ghost all = trees@;
            let value = match expr {
                Some(_) => Some(take_last(&mut trees)),
                None => None,
            };
            let ghost count = stmts@.len() as int;
            proof {
                assert(trees@ =~= all.take(count));
                assert(trees@.skip(0) =~= trees@);
            }
            let stmts = take_list(&mut trees, 0);
            Ok(ExprKind::Block { stmts, expr: value })
        },
        ThirExprKind::Unsupported(kind) => Err(Fatal::NotYetTranslated(kind)),
    }
}

/// Translates the operand `operand` of the expression `parent`.
fn translate_operand_expr(state: &mut State, thir: &Thir, parent: ExprId, operand: ExprId) -> (result:
    Result<Expr, Fatal>)
    requires
        old(state).wf(),
    ensures
        result == operand_tree(thir@, parent, operand),
        result is Ok ==> final(state).grown_by(
            old(state),
            only_spans(operand_spans(thir@, parent, operand)),
        ),
        result is Err ==> final(state).extends(old(state)),
    decreases parent.index, 0nat, 0nat,
{
    if operand.index < parent.index {
        translate_expr(state, thir, operand)
    } else {
        proof {
            lemma_grown_by_none(state);
        }
        Err(Fatal::ExprOutOfOrder(parent.index))
    }
}

/// Translates the operands `operands` of the expression `parent`, first to
/// last.
fn translate_operand_exprs(
    state: &mut State,
    thir: &Thir,
    parent: ExprId,
    operands: &Vec<ExprId>,
) -> (result: Result<Vec<Expr>, Fatal>)
    requires
        old(state).wf(),
    ensures
        trees_view(result) == operand_trees(thir@, parent, operands@),
        result is Ok ==> final(state).grown_by(
            old(state),
            only_spans(operands_spans(thir@, parent, operands@)),
        ),
        result is Err ==> final(state).extends(old(state)),
    decreases parent.index, 1nat, operands.len(),
{
    let mut trees: Vec<Expr> = Vec::new();
    let mut i: usize = 0;
    proof {
        assert(operands@.skip(0) =~= operands@);
        assert(operands@.take(0) =~= Seq::<ExprId>::empty());
        lemma_grown_by_none(state);
        assert(after(trees@, operand_trees(thir@, parent, operands@)) =~= operand_trees(
            thir@,
            parent,
            operands@,
        )) by {
            if operand_trees(thir@, parent, operands@) is Ok {
                assert(trees@ + operand_trees(thir@, parent, operands@)->Ok_0
                    =~= operand_trees(thir@, parent, operands@)->Ok_0);
            }
        }
    }
    while i < operands.len()
        invariant
            i <= operands.len(),
            state.wf(),
            operand_trees(thir@, parent, operands@) == after(
                trees@,
                operand_trees(thir@, parent, operands@.skip(i as int)),
            ),
            state.grown_by(
                old(state),
                only_spans(operands_spans(thir@, parent, operands@.take(i as int))),
            ),
        decreases operands.len() - i,
    {
        let ghost before = *state;
        let ghost done = trees@;
        let ghost rest = operands@.skip(i as int);
        proof {
            assert(rest.skip(1) =~= operands@.skip(i + 1));
            assert(rest[0] == operands@[i as int]);
            assert(operands@.take(i + 1).drop_last() =~= operands@.take(i as int));
            assert(operands@.take(i + 1).last() == operands@[i as int]);
            lemma_grown_extends(
                old(state),
                &before,
                only_spans(operands_spans(thir@, parent, operands@.take(i as int))),
            );
        }
        match translate_operand_expr(state, thir, parent, operands[i]) {
            Err(e) => {
                proof {
                    lemma_extends_twice(old(state), &before, state);
                }
                return Err(e);
            },
            Ok(tree) => {
                trees.push(tree);
                proof {
                    lemma_spans_twice(
                        old(state),
                        &before,
                        state,
                        operands_spans(thir@, parent, operands@.take(i as int)),
                        operand_spans(thir@, parent, operands@[i as int]),
                    );
                    let tail = operand_trees(thir@, parent, operands@.skip(i + 1));
                    if tail is Ok {
                        assert(done + (seq![tree] + tail->Ok_0) =~= done.push(tree) + tail->Ok_0);
                    }
                }
            },
        }
        i = i + 1;
    }
    proof {
        assert(operands@.take(i as int) =~= operands@);
        assert(trees@ + Seq::<Expr>::empty() =~= trees@);
    }
    Ok(trees)
}

/// Translates the expression `id` of a body into a tree that owns its
/// operands.
pub fn translate_expr(state: &mut State, thir: &Thir, id: ExprId) -> (result: Result<Expr, Fatal>)
    requires
        old(state).wf(),
    ensures
        result == expr_of(thir@, id),
        result is Ok ==> final(state).grown_by(old(state), only_spans(expr_spans(thir@, id))),
        result is Err ==> final(state).extends(old(state)),
    decreases id.index, 2nat, 0nat,
{
    let index: usize = id.index as usize;
    if index >= thir.exprs.len() {
        proof {
            lemma_grown_by_none(state);
        }
        return Err(Fatal::UnknownExpr(id.index));
    }
    let expr = &thir.exprs[index];
    let span = state.translate_span(expr.span);
    let ghost middle = *state;
    proof {
        assert(Footprint::span(expr.span).spans =~= set![expr.span]);
        assert(middle.grown_by(old(state), only_spans(set![expr.span])));
        lemma_grown_extends(old(state), &middle, only_spans(set![expr.span]));
    }
    let operands = operands_of(&expr.kind);
    let trees = match translate_operand_exprs(state, thir, id, &operands) {
        Ok(trees) => trees,
        Err(e) => {
            proof {
                lemma_extends_twice(old(state), &middle, state);
            }
            return Err(e);
        },
    };
    proof {
        lemma_spans_twice(
            old(state),
            &middle,
            state,
            set![expr.span],
            operands_spans(thir@, id, operand_ids(expr.kind)),
        );
        lemma_grown_extends(old(state), state, only_spans(expr_spans(thir@, id)));
        assert(trees@.len() == operand_ids(expr.kind).len()) by {
            lemma_trees_len(thir@, id, operand_ids(expr.kind));
        }
    }
    match build(&expr.kind, trees) {
        Ok(contents) => Ok(Expr { ty: expr.ty.clone(), span, contents }),
        Err(e) => Err(e),
    }
}

/// There are as many trees as operands.
proof fn lemma_trees_len(exprs: Seq<ThirExpr>, parent: ExprId, operands: Seq<ExprId>)
    requires
        operand_trees(exprs, parent, operands) is Ok,
    ensures
        operand_trees(exprs, parent, operands)->Ok_0.len() == operands.len(),
    decreases operands.len(),
{
    if operands.len() > 0 {
        lemma_trees_len(exprs, parent, operands.skip(1));
    }
}

} // verus!
