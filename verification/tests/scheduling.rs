use std::collections::HashMap;

use hax_export::ids::{ErrorGuaranteed, HostSpan, LocalDefId, Ty};
use hax_export::scheduler::{
    extraction_order, precompute_local_thir_bodies, schedule, BodyCache, BodyOwner, BodyState,
    ConstLevel, DefKind, ExtractedBody, ExtractionFailure, FailureCause,
};
use hax_export::thir::{dummy_thir_body, ExprId, LitKind, Thir, ThirExpr, ThirExprKind};

fn span(lo: u32) -> HostSpan {
    HostSpan { file: 1, lo, hi: lo + 5, ctxt: 0 }
}

fn body(value: u128) -> BodyState {
    BodyState::Ready(
        Thir {
            exprs: vec![ThirExpr {
                kind: ThirExprKind::Literal { lit: LitKind::Int(value), neg: false },
                ty: Ty::Bool,
                span: span(100),
            }],
        },
        ExprId { index: 0 },
    )
}

fn owner(index: u32, kind: DefKind, is_const_fn: bool) -> BodyOwner {
    BodyOwner {
        id: LocalDefId { index },
        kind,
        parent_kind: DefKind::Mod,
        is_const_fn,
        span: span(index),
        has_body: true,
    }
}

fn ids(order: &[BodyOwner]) -> Vec<u32> {
    order.iter().map(|o| o.id.index).collect()
}

/// Every definition of `owners` has the body that holds its own index.
fn answers(owners: &[BodyOwner]) -> HashMap<u32, BodyState> {
    owners.iter().map(|o| (o.id.index, body(o.id.index as u128))).collect()
}

#[test]
fn const_levels() {
    assert_eq!(owner(1, DefKind::Const, false).const_level(), ConstLevel::Const);
    assert_eq!(owner(1, DefKind::ConstParam, false).const_level(), ConstLevel::Const);
    assert_eq!(owner(1, DefKind::AssocConst, true).const_level(), ConstLevel::Const);
    assert_eq!(owner(1, DefKind::AnonConst, false).const_level(), ConstLevel::Const);
    assert_eq!(owner(1, DefKind::InlineConst, false).const_level(), ConstLevel::Const);
    assert_eq!(owner(1, DefKind::Fn, true).const_level(), ConstLevel::ConstFn);
    assert_eq!(owner(1, DefKind::AssocFn, true).const_level(), ConstLevel::ConstFn);
    assert_eq!(owner(1, DefKind::Fn, false).const_level(), ConstLevel::NotConst);
    assert_eq!(owner(1, DefKind::Closure, false).const_level(), ConstLevel::NotConst);
    assert_eq!(owner(1, DefKind::Static, false).const_level(), ConstLevel::NotConst);
    assert_eq!(ConstLevel::Const.rank(), 0);
    assert_eq!(ConstLevel::ConstFn.rank(), 1);
    assert_eq!(ConstLevel::NotConst.rank(), 2);
    assert_eq!(owner(1, DefKind::Fn, true).level_rank(), 1);
}

#[test]
fn def_kind_classes() {
    for kind in [DefKind::Fn, DefKind::AssocFn, DefKind::Ctor, DefKind::Closure] {
        assert!(kind.is_fn_like());
        assert!(!kind.is_constant());
    }
    for kind in [DefKind::Mod, DefKind::Const, DefKind::Impl, DefKind::Static] {
        assert!(!kind.is_fn_like());
    }
    assert!(DefKind::AnonConst.is_anonymous_const());
    assert!(DefKind::InlineConst.is_anonymous_const());
    assert!(!DefKind::Const.is_anonymous_const());
}

#[test]
fn constants_come_before_const_fns_before_functions() {
    let owners = vec![
        owner(1, DefKind::Fn, false),
        owner(2, DefKind::Fn, true),
        owner(3, DefKind::Const, false),
        owner(4, DefKind::Closure, false),
        owner(5, DefKind::AssocConst, false),
        owner(6, DefKind::AssocFn, true),
    ];
    assert_eq!(ids(&schedule(&owners)), vec![3, 5, 2, 6, 1, 4]);
}

#[test]
fn the_schedule_does_not_depend_on_the_order_of_declaration() {
    let forward = vec![
        owner(1, DefKind::Const, false),
        owner(2, DefKind::Fn, true),
        owner(3, DefKind::Fn, false),
    ];
    let backward = vec![
        owner(3, DefKind::Fn, false),
        owner(2, DefKind::Fn, true),
        owner(1, DefKind::Const, false),
    ];
    assert_eq!(ids(&schedule(&forward)), vec![1, 2, 3]);
    assert_eq!(ids(&schedule(&backward)), vec![1, 2, 3]);
}

#[test]
fn definitions_of_one_level_keep_their_order() {
    let owners = vec![
        owner(9, DefKind::Fn, false),
        owner(8, DefKind::Const, false),
        owner(7, DefKind::Fn, false),
        owner(6, DefKind::Const, false),
        owner(5, DefKind::Fn, false),
    ];
    assert_eq!(ids(&schedule(&owners)), vec![8, 6, 9, 7, 5]);
}

#[test]
fn definitions_without_body_are_left_out() {
    let mut no_body = owner(2, DefKind::Fn, false);
    no_body.has_body = false;
    let owners = vec![owner(1, DefKind::Fn, false), no_body, owner(3, DefKind::Const, false)];
    assert_eq!(ids(&schedule(&owners)), vec![3, 1]);
}

#[test]
fn unnamed_constants_outside_functions_are_left_out() {
    let mut in_fn = owner(1, DefKind::AnonConst, false);
    in_fn.parent_kind = DefKind::Fn;
    let mut in_closure = owner(2, DefKind::InlineConst, false);
    in_closure.parent_kind = DefKind::Closure;
    let mut in_struct = owner(3, DefKind::AnonConst, false);
    in_struct.parent_kind = DefKind::Struct;
    let mut in_mod = owner(4, DefKind::InlineConst, false);
    in_mod.parent_kind = DefKind::Mod;
    assert!(in_fn.is_scheduled());
    assert!(in_closure.is_scheduled());
    assert!(!in_struct.is_scheduled());
    assert!(!in_mod.is_scheduled());
    let owners = vec![owner(5, DefKind::Fn, false), in_fn, in_struct, in_closure, in_mod];
    assert_eq!(ids(&schedule(&owners)), vec![1, 2, 5]);
}

#[test]
fn empty_unit_has_an_empty_schedule() {
    let owners: Vec<BodyOwner> = vec![];
    assert!(schedule(&owners).is_empty());
    assert!(extraction_order(&owners).is_empty());
    let out = precompute_local_thir_bodies(&owners, &HashMap::new());
    assert_eq!(out.bodies.len(), 0);
    assert!(out.failures.is_empty());
}

#[test]
fn every_body_is_extracted_once() {
    let owners = vec![
        owner(1, DefKind::Fn, false),
        owner(2, DefKind::Const, false),
        owner(3, DefKind::Fn, true),
    ];
    let out = precompute_local_thir_bodies(&owners, &answers(&owners));
    assert_eq!(
        out.bodies.order,
        vec![LocalDefId { index: 2 }, LocalDefId { index: 3 }, LocalDefId { index: 1 }]
    );
    assert_eq!(out.bodies.len(), 3);
    assert_eq!(out.bodies.bodies.len(), 3);
    assert!(out.failures.is_empty());
    for o in &owners {
        let got = out.bodies.get(o.id).unwrap();
        let BodyState::Ready(thir, root) = body(o.id.index as u128) else { panic!("no body") };
        assert_eq!(got, &ExtractedBody { owner: o.id, thir, root });
    }
    assert!(out.bodies.contains(LocalDefId { index: 1 }));
    assert!(!out.bodies.contains(LocalDefId { index: 4 }));
    assert!(out.bodies.get(LocalDefId { index: 4 }).is_none());
}

#[test]
fn the_host_is_asked_in_the_order_of_the_schedule() {
    let owners = vec![
        owner(1, DefKind::Fn, false),
        owner(2, DefKind::Const, false),
        owner(3, DefKind::Fn, true),
    ];
    assert_eq!(ids(&extraction_order(&owners)), vec![2, 3, 1]);
}

#[test]
fn a_definition_named_twice_is_asked_about_once() {
    let mut again = owner(1, DefKind::Fn, false);
    again.span = span(77);
    let owners = vec![owner(1, DefKind::Fn, false), owner(2, DefKind::Fn, false), again];
    assert_eq!(ids(&schedule(&owners)), vec![1, 2, 1]);
    let order = extraction_order(&owners);
    assert_eq!(ids(&order), vec![1, 2]);
    assert_eq!(order[0].span, span(1));
    let out = precompute_local_thir_bodies(&owners, &answers(&owners));
    assert_eq!(out.bodies.order, vec![LocalDefId { index: 1 }, LocalDefId { index: 2 }]);
}

#[test]
fn a_body_that_cannot_be_had_becomes_an_error_literal() {
    let owners =
        vec![owner(1, DefKind::Fn, false), owner(3, DefKind::Fn, false), owner(2, DefKind::Const, false)];
    let mut host = answers(&owners);
    host.insert(1, BodyState::TypeError);
    host.insert(2, BodyState::Stolen);
    let out = precompute_local_thir_bodies(&owners, &host);
    assert_eq!(
        out.bodies.order,
        vec![LocalDefId { index: 2 }, LocalDefId { index: 1 }, LocalDefId { index: 3 }]
    );
    assert_eq!(
        out.failures,
        vec![
            ExtractionFailure {
                owner: LocalDefId { index: 2 },
                span: span(2),
                cause: FailureCause::Stolen
            },
            ExtractionFailure {
                owner: LocalDefId { index: 1 },
                span: span(1),
                cause: FailureCause::TypeError
            },
        ]
    );
    for index in [1u32, 2] {
        let got = out.bodies.get(LocalDefId { index }).unwrap();
        assert_eq!(got.root, ExprId { index: 0 });
        assert_eq!(
            got.thir.exprs,
            vec![ThirExpr {
                kind: ThirExprKind::Literal { lit: LitKind::Error(ErrorGuaranteed), neg: false },
                ty: Ty::Never,
                span: span(index),
            }]
        );
    }
    let BodyState::Ready(thir, _) = body(3) else { panic!("no body") };
    assert_eq!(out.bodies.get(LocalDefId { index: 3 }).unwrap().thir, thir);
}

#[test]
fn a_body_without_answer_is_not_to_be_had() {
    let owners = vec![owner(1, DefKind::Fn, false)];
    let out = precompute_local_thir_bodies(&owners, &HashMap::new());
    assert_eq!(out.bodies.len(), 1);
    assert_eq!(
        out.failures,
        vec![ExtractionFailure {
            owner: LocalDefId { index: 1 },
            span: span(1),
            cause: FailureCause::Stolen
        }]
    );
}

#[test]
fn the_error_body_holds_one_error_literal() {
    let (thir, root) = dummy_thir_body(span(40), ErrorGuaranteed);
    assert_eq!(root, ExprId { index: 0 });
    assert_eq!(thir.exprs.len(), 1);
    assert_eq!(thir.exprs[0].kind, ThirExprKind::Literal { lit: LitKind::Error(ErrorGuaranteed), neg: false });
    assert_eq!(thir.exprs[0].ty, Ty::Never);
    assert_eq!(thir.exprs[0].span, span(40));
}

#[test]
fn putting_a_body_in_the_cache_twice_changes_nothing() {
    let mut cache = BodyCache::new();
    let (thir, root) = dummy_thir_body(span(1), ErrorGuaranteed);
    assert!(cache.insert(ExtractedBody { owner: LocalDefId { index: 4 }, thir, root }));
    let (thir, root) = dummy_thir_body(span(2), ErrorGuaranteed);
    assert!(!cache.insert(ExtractedBody { owner: LocalDefId { index: 4 }, thir, root }));
    assert_eq!(cache.len(), 1);
    assert_eq!(cache.get(LocalDefId { index: 4 }).unwrap().thir.exprs[0].span, span(1));
    let (thir, root) = dummy_thir_body(span(3), ErrorGuaranteed);
    assert!(cache.insert(ExtractedBody { owner: LocalDefId { index: 5 }, thir, root }));
    assert_eq!(cache.order, vec![LocalDefId { index: 4 }, LocalDefId { index: 5 }]);
}

#[test]
fn local_def_ids_belong_to_the_local_crate() {
    let id = LocalDefId { index: 12 }.to_def_id();
    assert_eq!(id.krate, 0);
    assert_eq!(id.index, 12);
}
