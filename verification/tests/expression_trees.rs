use hax_export::error::{Fatal, HostKind};
use hax_export::ids::{FieldIdx, HostSpan, IntTy, Local, Mutability, Span, Ty};
use hax_export::options::Options;
use hax_export::state::State;
use hax_export::thir::{
    translate_expr, BinOp, Expr, ExprId, ExprIds, ExprKind, ExprList, LitKind, LogicalOp, Thir,
    ThirExpr, ThirExprKind, UnOp,
};

fn host_span(lo: u32) -> HostSpan {
    HostSpan { file: 1, lo, hi: lo + 1, ctxt: 0 }
}

fn span(lo: u32) -> Span {
    Span { file: 1, lo, hi: lo + 1 }
}

fn id(index: u32) -> ExprId {
    ExprId { index }
}

fn node(kind: ThirExprKind, ty: Ty, lo: u32) -> ThirExpr {
    ThirExpr { kind, ty, span: host_span(lo) }
}

fn number(value: u128, lo: u32) -> ThirExpr {
    node(ThirExprKind::Literal { lit: LitKind::Int(value), neg: false }, Ty::Int(IntTy::I32), lo)
}

fn exported_number(value: u128, lo: u32) -> Expr {
    Expr {
        ty: Ty::Int(IntTy::I32),
        span: span(lo),
        contents: ExprKind::Literal { lit: LitKind::Int(value), neg: false },
    }
}

fn state() -> State {
    State::new(Options::default(), vec![])
}

#[test]
fn a_literal() {
    let thir = Thir { exprs: vec![number(7, 1)] };
    let mut s = state();
    assert_eq!(translate_expr(&mut s, &thir, id(0)), Ok(exported_number(7, 1)));
    assert_eq!(s.base.exported_spans.items, vec![host_span(1)]);
}

#[test]
fn a_tree_owns_its_operands() {
    // if x { -(1) } else { 1 + 2 }
    let thir = Thir {
        exprs: vec![
            node(ThirExprKind::VarRef { local: Local { index: 1 } }, Ty::Bool, 1),
            number(1, 2),
            node(ThirExprKind::Unary { op: UnOp::Neg, arg: id(1) }, Ty::Int(IntTy::I32), 3),
            number(2, 4),
            node(
                ThirExprKind::Binary { op: BinOp::Add, lhs: id(1), rhs: id(3) },
                Ty::Int(IntTy::I32),
                5,
            ),
            node(
                ThirExprKind::If { cond: id(0), then_branch: id(2), else_branch: Some(id(4)) },
                Ty::Int(IntTy::I32),
                6,
            ),
        ],
    };
    let mut s = state();
    let var = Expr {
        ty: Ty::Bool,
        span: span(1),
        contents: ExprKind::VarRef { local: Local { index: 1 } },
    };
    let neg = Expr {
        ty: Ty::Int(IntTy::I32),
        span: span(3),
        contents: ExprKind::Unary { op: UnOp::Neg, arg: Box::new(exported_number(1, 2)) },
    };
    let sum = Expr {
        ty: Ty::Int(IntTy::I32),
        span: span(5),
        contents: ExprKind::Binary {
            op: BinOp::Add,
            lhs: Box::new(exported_number(1, 2)),
            rhs: Box::new(exported_number(2, 4)),
        },
    };
    assert_eq!(
        translate_expr(&mut s, &thir, id(5)),
        Ok(Expr {
            ty: Ty::Int(IntTy::I32),
            span: span(6),
            contents: ExprKind::If {
                cond: Box::new(var),
                then_branch: Box::new(neg),
                else_branch: Some(Box::new(sum)),
            },
        })
    );
    let mut met: Vec<u32> = s.base.exported_spans.items.iter().map(|s| s.lo).collect();
    met.sort();
    assert_eq!(met, vec![1, 2, 3, 4, 5, 6]);
}

#[test]
fn if_without_else() {
    let thir = Thir {
        exprs: vec![
            node(ThirExprKind::Literal { lit: LitKind::Bool(true), neg: false }, Ty::Bool, 1),
            number(1, 2),
            node(
                ThirExprKind::If { cond: id(0), then_branch: id(1), else_branch: None },
                Ty::Tuple(hax_export::ids::TyList::Nil),
                3,
            ),
        ],
    };
    let mut s = state();
    let got = translate_expr(&mut s, &thir, id(2)).unwrap();
    assert!(matches!(got.contents, ExprKind::If { else_branch: None, .. }));
}

#[test]
fn an_expression_outside_the_table_is_fatal() {
    let thir = Thir { exprs: vec![number(7, 1)] };
    let mut s = state();
    assert_eq!(translate_expr(&mut s, &thir, id(1)), Err(Fatal::UnknownExpr(1)));
    assert_eq!(translate_expr(&mut s, &Thir { exprs: vec![] }, id(0)), Err(Fatal::UnknownExpr(0)));
    assert_eq!(s.base.exported_spans.len(), 0);
}

#[test]
fn an_operand_after_its_expression_is_fatal() {
    let thir = Thir {
        exprs: vec![
            node(ThirExprKind::Unary { op: UnOp::Not, arg: id(1) }, Ty::Bool, 1),
            node(ThirExprKind::Unary { op: UnOp::Not, arg: id(1) }, Ty::Bool, 2),
            node(ThirExprKind::Binary { op: BinOp::Eq, lhs: id(0), rhs: id(7) }, Ty::Bool, 3),
        ],
    };
    let mut s = state();
    assert_eq!(translate_expr(&mut s, &thir, id(0)), Err(Fatal::ExprOutOfOrder(0)));
    assert_eq!(translate_expr(&mut s, &thir, id(1)), Err(Fatal::ExprOutOfOrder(1)));
    // the first operand of 2 is 0, which fails itself
    assert_eq!(translate_expr(&mut s, &thir, id(2)), Err(Fatal::ExprOutOfOrder(0)));
}

#[test]
fn an_expression_of_an_unmodeled_kind_is_fatal() {
    let thir = Thir {
        exprs: vec![
            node(ThirExprKind::Unsupported(HostKind::Expr), Ty::Bool, 1),
            node(ThirExprKind::Unary { op: UnOp::Not, arg: id(0) }, Ty::Bool, 2),
        ],
    };
    let mut s = state();
    assert_eq!(
        translate_expr(&mut s, &thir, id(1)),
        Err(Fatal::NotYetTranslated(HostKind::Expr))
    );
}

#[test]
fn table_copies_are_equal() {
    let thir = Thir { exprs: vec![number(7, 1), number(8, 2)] };
    assert_eq!(thir.clone(), thir);
    assert_eq!(thir.exprs[1].clone(), thir.exprs[1]);
}

fn boxed(value: u128, lo: u32) -> Box<Expr> {
    Box::new(exported_number(value, lo))
}

#[test]
fn every_kind_of_one_operand() {
    let kinds = vec![
        (ThirExprKind::Scope { value: id(0) }, ExprKind::Scope { value: boxed(7, 1) }),
        (
            ThirExprKind::Unary { op: UnOp::Not, arg: id(0) },
            ExprKind::Unary { op: UnOp::Not, arg: boxed(7, 1) },
        ),
        (ThirExprKind::Deref { arg: id(0) }, ExprKind::Deref { arg: boxed(7, 1) }),
        (
            ThirExprKind::Borrow { mutability: Mutability::Mut, arg: id(0) },
            ExprKind::Borrow { mutability: Mutability::Mut, arg: boxed(7, 1) },
        ),
        (ThirExprKind::Cast { source: id(0) }, ExprKind::Cast { source: boxed(7, 1) }),
        (
            ThirExprKind::Field { lhs: id(0), name: FieldIdx { index: 3 } },
            ExprKind::Field { lhs: boxed(7, 1), name: FieldIdx { index: 3 } },
        ),
        (
            ThirExprKind::Return { value: Some(id(0)) },
            ExprKind::Return { value: Some(boxed(7, 1)) },
        ),
        (ThirExprKind::Return { value: None }, ExprKind::Return { value: None }),
    ];
    for (host, exported) in kinds {
        let thir = Thir { exprs: vec![number(7, 1), node(host, Ty::Bool, 2)] };
        let mut s = state();
        assert_eq!(
            translate_expr(&mut s, &thir, id(1)),
            Ok(Expr { ty: Ty::Bool, span: span(2), contents: exported })
        );
    }
}

#[test]
fn every_kind_of_two_operands() {
    let kinds = vec![
        (
            ThirExprKind::Binary { op: BinOp::Sub, lhs: id(1), rhs: id(0) },
            ExprKind::Binary { op: BinOp::Sub, lhs: boxed(8, 2), rhs: boxed(7, 1) },
        ),
        (
            ThirExprKind::LogicalOp { op: LogicalOp::Or, lhs: id(0), rhs: id(1) },
            ExprKind::LogicalOp { op: LogicalOp::Or, lhs: boxed(7, 1), rhs: boxed(8, 2) },
        ),
        (
            ThirExprKind::Index { lhs: id(0), index: id(1) },
            ExprKind::Index { lhs: boxed(7, 1), index: boxed(8, 2) },
        ),
        (
            ThirExprKind::Assign { lhs: id(0), rhs: id(0) },
            ExprKind::Assign { lhs: boxed(7, 1), rhs: boxed(7, 1) },
        ),
    ];
    for (host, exported) in kinds {
        let thir = Thir { exprs: vec![number(7, 1), number(8, 2), node(host, Ty::Bool, 3)] };
        let mut s = state();
        assert_eq!(
            translate_expr(&mut s, &thir, id(2)),
            Ok(Expr { ty: Ty::Bool, span: span(3), contents: exported })
        );
    }
}

#[test]
fn the_first_operand_that_fails_is_reported() {
    let thir = Thir {
        exprs: vec![
            node(ThirExprKind::Unsupported(HostKind::Expr), Ty::Bool, 1),
            number(1, 2),
            node(ThirExprKind::Index { lhs: id(1), index: id(0) }, Ty::Bool, 3),
            node(ThirExprKind::Assign { lhs: id(9), rhs: id(0) }, Ty::Bool, 4),
            node(
                ThirExprKind::If { cond: id(1), then_branch: id(4), else_branch: Some(id(0)) },
                Ty::Bool,
                5,
            ),
        ],
    };
    let mut s = state();
    assert_eq!(translate_expr(&mut s, &thir, id(2)), Err(Fatal::NotYetTranslated(HostKind::Expr)));
    assert_eq!(translate_expr(&mut s, &thir, id(3)), Err(Fatal::ExprOutOfOrder(3)));
    assert_eq!(translate_expr(&mut s, &thir, id(4)), Err(Fatal::ExprOutOfOrder(4)));
}

fn ids(indices: &[u32]) -> ExprIds {
    ExprIds::from_vec(indices.iter().map(|&index| id(index)).collect())
}

fn list(trees: Vec<Expr>) -> ExprList {
    trees
        .into_iter()
        .rev()
        .fold(ExprList::Nil, |tail, head| ExprList::Cons(Box::new(head), Box::new(tail)))
}

fn three() -> Vec<ThirExpr> {
    vec![number(7, 1), number(8, 2), number(9, 3)]
}

#[test]
fn lists_of_indices_keep_their_order() {
    assert_eq!(
        ids(&[4, 2]),
        ExprIds::Cons(id(4), Box::new(ExprIds::Cons(id(2), Box::new(ExprIds::Nil))))
    );
    assert_eq!(ids(&[]), ExprIds::Nil);
    assert_eq!(ids(&[1, 2, 3]).clone(), ids(&[1, 2, 3]));
}

#[test]
fn a_call_has_its_function_and_its_arguments() {
    let mut exprs = three();
    exprs.push(node(ThirExprKind::Call { fun: id(2), args: ids(&[0, 1, 0]) }, Ty::Bool, 4));
    let mut s = state();
    assert_eq!(
        translate_expr(&mut s, &Thir { exprs }, id(3)),
        Ok(Expr {
            ty: Ty::Bool,
            span: span(4),
            contents: ExprKind::Call {
                fun: boxed(9, 3),
                args: list(vec![
                    exported_number(7, 1),
                    exported_number(8, 2),
                    exported_number(7, 1)
                ]),
            },
        })
    );
    let mut exprs = three();
    exprs.push(node(ThirExprKind::Call { fun: id(0), args: ids(&[]) }, Ty::Bool, 4));
    assert_eq!(
        translate_expr(&mut s, &Thir { exprs }, id(3)).map(|e| e.contents),
        Ok(ExprKind::Call { fun: boxed(7, 1), args: ExprList::Nil })
    );
}

#[test]
fn a_tuple_has_its_components() {
    let mut exprs = three();
    exprs.push(node(ThirExprKind::Tuple { fields: ids(&[2, 0]) }, Ty::Bool, 4));
    let mut s = state();
    assert_eq!(
        translate_expr(&mut s, &Thir { exprs }, id(3)).map(|e| e.contents),
        Ok(ExprKind::Tuple { fields: list(vec![exported_number(9, 3), exported_number(7, 1)]) })
    );
    let thir = Thir { exprs: vec![node(ThirExprKind::Tuple { fields: ids(&[]) }, Ty::Bool, 4)] };
    assert_eq!(
        translate_expr(&mut s, &thir, id(0)).map(|e| e.contents),
        Ok(ExprKind::Tuple { fields: ExprList::Nil })
    );
}

#[test]
fn a_block_has_its_statements_and_its_value() {
    let mut exprs = three();
    exprs.push(node(ThirExprKind::Block { stmts: ids(&[0, 1]), expr: Some(id(2)) }, Ty::Bool, 4));
    exprs.push(node(ThirExprKind::Block { stmts: ids(&[1]), expr: None }, Ty::Bool, 5));
    exprs.push(node(ThirExprKind::Block { stmts: ids(&[]), expr: Some(id(4)) }, Ty::Bool, 6));
    let thir = Thir { exprs };
    let mut s = state();
    assert_eq!(
        translate_expr(&mut s, &thir, id(3)).map(|e| e.contents),
        Ok(ExprKind::Block {
            stmts: list(vec![exported_number(7, 1), exported_number(8, 2)]),
            expr: Some(boxed(9, 3)),
        })
    );
    let inner = Expr {
        ty: Ty::Bool,
        span: span(5),
        contents: ExprKind::Block { stmts: list(vec![exported_number(8, 2)]), expr: None },
    };
    assert_eq!(
        translate_expr(&mut s, &thir, id(5)).map(|e| e.contents),
        Ok(ExprKind::Block { stmts: ExprList::Nil, expr: Some(Box::new(inner)) })
    );
}

#[test]
fn an_argument_that_fails_ends_the_call() {
    let mut exprs = three();
    exprs.push(node(ThirExprKind::Call { fun: id(2), args: ids(&[0, 7, 1]) }, Ty::Bool, 4));
    exprs.push(node(ThirExprKind::Unsupported(HostKind::Expr), Ty::Bool, 5));
    exprs.push(node(ThirExprKind::Tuple { fields: ids(&[0, 4, 9]) }, Ty::Bool, 6));
    let thir = Thir { exprs };
    let mut s = state();
    assert_eq!(translate_expr(&mut s, &thir, id(3)), Err(Fatal::ExprOutOfOrder(3)));
    assert_eq!(
        translate_expr(&mut s, &thir, id(5)),
        Err(Fatal::NotYetTranslated(HostKind::Expr))
    );
}
