//! Translating a lowered body, node by node.
//!
//! Every kind of host node has its translation, which takes the node and the
//! context and gives the exported node. A translation adds the spans and the
//! definitions that it meets to the context and changes nothing else. Where
//! it meets a node of a kind that has no exported form, or a shape that the
//! host should never show, it fails, and says what it met.

use vstd::prelude::*;
use crate::error::{Fatal, HostKind};
use std::marker::PhantomData;
use crate::host::{
    AdtDef, HostBasicBlockData, HostConstant, HostConstantKind, HostLocalDecl, HostMirBody,
    HostOperand, HostPlace, HostRvalue, HostSourceInfo, HostSourceScopeData, HostStatement,
    HostStatementKind, HostTerminator, HostTerminatorKind, HostVarDebugInfo,
};
use crate::ids::{
    exported_span, BasicBlock, DefId, FieldIdx, HostSpan, Local, Symbol, Ty, TyList,
};
use crate::mir::{
    AggregateKind, BasicBlockData, ClearCrossCrate, Constant, ConstantExpr, ConstantExprKind,
    LocalDecl, MirBody, NullOp, Operand, Place, PlaceKind, ProjectionElem, ProjectionElemFieldKind,
    Rvalue,
    SourceInfo, SourceScopeData, Statement, StatementKind, SwitchTargetsView, Terminator,
    TerminatorKind, UnwindAction, VarDebugInfo,
};
use crate::switch::{lifted_switch, translate_switch_targets};
use crate::place::{place_of, reconstruct_place};
use crate::state::{
    lemma_extends_twice, lemma_grown_by_none, lemma_grown_extends, lemma_grown_twice, Footprint,
    State,
};

verus! {

/// The exported place for the host place `place` of a body with the local
/// variables `locals`.
pub open spec fn host_place_of(adts: Seq<AdtDef>, locals: Seq<HostLocalDecl>, place: HostPlace)
    -> Result<Place, Fatal> {
    if place.local.index < locals.len() {
        place_of(adts, locals[place.local.index as int].ty, place.local, place.projection@)
    } else {
        Err(Fatal::UnknownLocal(place.local))
    }
}

/// The definitions that the projections of `place` name: for each access to
/// a field of a struct, enum or union, the type and the variant.
pub open spec fn place_def_ids(place: Place) -> Set<DefId>
    decreases place,
{
    match place.kind {
        PlaceKind::Local(_) => Set::empty(),
        PlaceKind::Projection { place: base, kind } => place_def_ids(*base) + (match kind {
            ProjectionElem::Field(ProjectionElemFieldKind::Adt { typ, variant_info, .. }) => set![
                typ,
                variant_info.variant
            ],
            _ => Set::empty(),
        }),
    }
}

/// What the translation of `place` adds to the context.
pub open spec fn place_footprint(adts: Seq<AdtDef>, locals: Seq<HostLocalDecl>, place: HostPlace)
    -> Footprint {
    match host_place_of(adts, locals, place) {
        Ok(exported) => Footprint { spans: Set::empty(), def_ids: place_def_ids(exported) },
        Err(_) => Footprint::none(),
    }
}

/// The exported constant for the host constant `constant`.
pub open spec fn constant_of(constant: HostConstant) -> Constant {
    Constant {
        span: exported_span(constant.span),
        user_ty: constant.user_ty,
        literal: ConstantExpr {
            ty: constant.ty,
            span: exported_span(constant.span),
            contents: match constant.kind {
                HostConstantKind::Value(lit) => ConstantExprKind::Literal(lit),
                HostConstantKind::Item(id) => ConstantExprKind::GlobalName(id),
                HostConstantKind::Unevaluated(id) => ConstantExprKind::GlobalName(id),
            },
        },
    }
}

/// What the translation of `constant` adds to the context: its span, and
/// the item that it names.
pub open spec fn constant_footprint(constant: HostConstant) -> Footprint {
    Footprint {
        spans: set![constant.span],
        def_ids: match constant.kind {
            HostConstantKind::Value(_) => Set::empty(),
            HostConstantKind::Item(id) => set![id],
            HostConstantKind::Unevaluated(id) => set![id],
        },
    }
}

/// The exported operand for the host operand `operand`.
pub open spec fn operand_of(adts: Seq<AdtDef>, locals: Seq<HostLocalDecl>, operand: HostOperand)
    -> Result<Operand, Fatal> {
    match operand {
        HostOperand::Copy(place) => match host_place_of(adts, locals, place) {
            Ok(exported) => Ok(Operand::Copy(exported)),
            Err(e) => Err(e),
        },
        HostOperand::Move(place) => match host_place_of(adts, locals, place) {
            Ok(exported) => Ok(Operand::Move(exported)),
            Err(e) => Err(e),
        },
        HostOperand::Constant(constant) => Ok(Operand::Constant(constant_of(constant))),
    }
}

/// What the translation of `operand` adds to the context.
pub open spec fn operand_footprint(
    adts: Seq<AdtDef>,
    locals: Seq<HostLocalDecl>,
    operand: HostOperand,
) -> Footprint {
    match operand {
        HostOperand::Copy(place) => place_footprint(adts, locals, place),
        HostOperand::Move(place) => place_footprint(adts, locals, place),
        HostOperand::Constant(constant) => constant_footprint(constant),
    }
}

/// The function that the operand `func` of a call names, with its type
/// arguments. Only a call of a function item is supported: the operand must
/// be an evaluated constant whose type is that of the function.
pub open spec fn function_of(func: HostOperand) -> Result<(DefId, TyList), Fatal> {
    match func {
        HostOperand::Constant(constant) => match constant.kind {
            HostConstantKind::Unevaluated(_) => Err(
                Fatal::NotYetTranslated(HostKind::UnevaluatedConstant),
            ),
            _ => match constant.ty {
                Ty::FnDef { def_id, args } => Ok((def_id, args)),
                _ => Err(Fatal::CalleeNotFunction(constant.ty)),
            },
        },
        _ => Err(Fatal::NotYetTranslated(HostKind::IndirectCall)),
    }
}

/// Adds to the context the definitions that the projections of `place` name.
fn record_place(state: &mut State, place: &Place)
    requires
        old(state).wf(),
    ensures
        final(state).grown_by(
            old(state),
            Footprint { spans: Set::empty(), def_ids: place_def_ids(*place) },
        ),
    decreases place,
{
    match &place.kind {
        PlaceKind::Local(_) => {
            proof {
                lemma_grown_by_none(state);
            }
        },
        PlaceKind::Projection { place: base, kind } => {
            record_place(state, &**base);
            let ghost middle = *state;
            match kind {
                ProjectionElem::Field(ProjectionElemFieldKind::Adt { typ, variant_info, .. }) => {
                    state.translate_def_id(*typ);
                    let ghost third = *state;
                    state.translate_def_id(variant_info.variant);
                    proof {
                        lemma_grown_twice(
                            &middle,
                            &third,
                            state,
                            Footprint::def_id(*typ),
                            Footprint::def_id(variant_info.variant),
                        );
                        let a = Footprint { spans: Set::empty(), def_ids: place_def_ids(**base) };
                        let b = Footprint::def_id(*typ).and(
                            Footprint::def_id(variant_info.variant),
                        );
                        lemma_grown_twice(old(state), &middle, state, a, b);
                        assert(a.and(b).spans =~= Set::<HostSpan>::empty());
                        assert(a.and(b).def_ids =~= place_def_ids(*place));
                    }
                },
                _ => {
                    proof {
                        assert(place_def_ids(*place) =~= place_def_ids(**base));
                    }
                },
            }
        },
    }
}

/// Translates a place of a body with the local variables `locals`.
pub fn translate_place(state: &mut State, locals: &Vec<HostLocalDecl>, place: &HostPlace) -> (result:
    Result<Place, Fatal>)
    requires
        old(state).wf(),
    ensures
        result == host_place_of(old(state).base.adts@, locals@, *place),
        final(state).grown_by(old(state), place_footprint(old(state).base.adts@, locals@, *place)),
{
    let index: usize = place.local.index as usize;
    if index < locals.len() {
        match reconstruct_place(&state.base.adts, &locals[index].ty, place) {
            Ok(exported) => {
                record_place(state, &exported);
                Ok(exported)
            },
            Err(e) => {
                proof {
                    lemma_grown_by_none(state);
                }
                Err(e)
            },
        }
    } else {
        proof {
            lemma_grown_by_none(state);
        }
        Err(Fatal::UnknownLocal(place.local))
    }
}

/// Translates a constant.
pub fn translate_constant(state: &mut State, constant: &HostConstant) -> (exported: Constant)
    requires
        old(state).wf(),
    ensures
        exported == constant_of(*constant),
        final(state).grown_by(old(state), constant_footprint(*constant)),
{
    let span = state.translate_span(constant.span);
    let ghost middle = *state;
    let contents = match constant.kind {
        HostConstantKind::Value(lit) => {
            proof {
                lemma_grown_by_none(state);
            }
            ConstantExprKind::Literal(lit)
        },
        HostConstantKind::Item(id) => ConstantExprKind::GlobalName(state.translate_def_id(id)),
        HostConstantKind::Unevaluated(id) => ConstantExprKind::GlobalName(
            state.translate_def_id(id),
        ),
    };
    proof {
        let named = Footprint {
            spans: Set::empty(),
            def_ids: constant_footprint(*constant).def_ids,
        };
        assert(state.grown_by(&middle, named));
        lemma_grown_twice(old(state), &middle, state, Footprint::span(constant.span), named);
        assert(Footprint::span(constant.span).and(named).spans =~= constant_footprint(
            *constant,
        ).spans);
        assert(Footprint::span(constant.span).and(named).def_ids =~= constant_footprint(
            *constant,
        ).def_ids);
    }
    Constant {
        span,
        user_ty: constant.user_ty,
        literal: ConstantExpr { ty: constant.ty.clone(), span, contents },
    }
}

/// Translates an operand of a body with the local variables `locals`.
pub fn translate_operand(state: &mut State, locals: &Vec<HostLocalDecl>, operand: &HostOperand) -> (result:
    Result<Operand, Fatal>)
    requires
        old(state).wf(),
    ensures
        result == operand_of(old(state).base.adts@, locals@, *operand),
        final(state).grown_by(
            old(state),
            operand_footprint(old(state).base.adts@, locals@, *operand),
        ),
{
    match operand {
        HostOperand::Copy(place) => match translate_place(state, locals, place) {
            Ok(exported) => Ok(Operand::Copy(exported)),
            Err(e) => Err(e),
        },
        HostOperand::Move(place) => match translate_place(state, locals, place) {
            Ok(exported) => Ok(Operand::Move(exported)),
            Err(e) => Err(e),
        },
        HostOperand::Constant(constant) => Ok(Operand::Constant(translate_constant(state, constant))),
    }
}

/// Finds the function that a call calls, with its type arguments, from the
/// operand that the call names it by.
pub fn get_function_from_operand(func: &HostOperand) -> (result: Result<(DefId, TyList), Fatal>)
    ensures
        result == function_of(*func),
{
    match func {
        HostOperand::Constant(constant) => match constant.kind {
            HostConstantKind::Unevaluated(_) => Err(
                Fatal::NotYetTranslated(HostKind::UnevaluatedConstant),
            ),
            _ => match &constant.ty {
                Ty::FnDef { def_id, args } => Ok((*def_id, args.clone())),
                _ => Err(Fatal::CalleeNotFunction(constant.ty.clone())),
            },
        },
        _ => Err(Fatal::NotYetTranslated(HostKind::IndirectCall)),
    }
}

/// The name that the debug information `infos` gives the local variable
/// `local`: that of the first entry that stands for the whole variable.
pub open spec fn local_name(
    infos: Seq<HostVarDebugInfo>,
    local: Local,
) -> Option<Symbol>
    decreases infos.len(),
{
    if infos.len() == 0 {
        None
    } else if names_local(infos[0], local) {
        Some(infos[0].name)
    } else {
        local_name(infos.skip(1), local)
    }
}

/// Whether `info` is the name of the whole local variable `local`.
pub open spec fn names_local(info: HostVarDebugInfo, local: Local) -> bool {
    info.place matches Some(place) && place.projection@.len() == 0 && place.local == local
}

/// Finds the name that the program gives the local variable `local`.
pub fn name_of_local(local: Local, var_debug_info: &Vec<HostVarDebugInfo>) -> (name:
    Option<Symbol>)
    ensures
        name == local_name(var_debug_info@, local),
{
    let mut i: usize = 0;
    proof {
        assert(var_debug_info@.skip(0) =~= var_debug_info@);
    }
    while i < var_debug_info.len()
        invariant
            i <= var_debug_info.len(),
            local_name(var_debug_info@, local) == local_name(var_debug_info@.skip(i as int), local),
        decreases var_debug_info.len() - i,
    {
        proof {
            assert(var_debug_info@.skip(i as int).skip(1) =~= var_debug_info@.skip(i + 1));
        }
        let found: bool = match &var_debug_info[i].place {
            Some(place) => place.projection.len() == 0 && place.local == local,
            None => false,
        };
        if found {
            return Some(var_debug_info[i].name);
        }
        i = i + 1;
    }
    None
}

/// The error of an outcome, if it is one.
pub open spec fn error_of<T>(outcome: Result<T, Fatal>) -> Option<Fatal> {
    match outcome {
        Ok(_) => None,
        Err(e) => Some(e),
    }
}

/// The first of two failures.
pub open spec fn first_failure(first: Option<Fatal>, second: Option<Fatal>) -> Option<Fatal> {
    if first is Some {
        first
    } else {
        second
    }
}

/// The failure of the first operand of `operands` that cannot be translated.
pub open spec fn operands_failure(
    adts: Seq<AdtDef>,
    locals: Seq<HostLocalDecl>,
    operands: Seq<HostOperand>,
) -> Option<Fatal>
    decreases operands.len(),
{
    if operands.len() == 0 {
        None
    } else {
        first_failure(
            error_of(operand_of(adts, locals, operands[0])),
            operands_failure(adts, locals, operands.skip(1)),
        )
    }
}

/// Whether `exported` holds the translations of `operands`, one for one.
pub open spec fn are_operands_of(
    adts: Seq<AdtDef>,
    locals: Seq<HostLocalDecl>,
    operands: Seq<HostOperand>,
    exported: Seq<Operand>,
) -> bool {
    &&& exported.len() == operands.len()
    &&& forall|i: int|
        0 <= i < operands.len() ==> operand_of(adts, locals, operands[i]) == Ok::<Operand, Fatal>(
            #[trigger] exported[i],
        )
}

/// What the translation of `operands` adds to the context.
pub open spec fn operands_footprint(
    adts: Seq<AdtDef>,
    locals: Seq<HostLocalDecl>,
    operands: Seq<HostOperand>,
) -> Footprint
    decreases operands.len(),
{
    if operands.len() == 0 {
        Footprint::none()
    } else {
        operands_footprint(adts, locals, operands.drop_last()).and(
            operand_footprint(adts, locals, operands.last()),
        )
    }
}

/// Translates the operands of a call or of an aggregate, first to last.
pub fn translate_operands(
    state: &mut State,
    locals: &Vec<HostLocalDecl>,
    operands: &Vec<HostOperand>,
) -> (result: Result<Vec<Operand>, Fatal>)
    requires
        old(state).wf(),
    ensures
        match result {
            Ok(exported) => operands_failure(old(state).base.adts@, locals@, operands@) is None
                && are_operands_of(old(state).base.adts@, locals@, operands@, exported@)
                && final(state).grown_by(
                old(state),
                operands_footprint(old(state).base.adts@, locals@, operands@),
            ),
            Err(e) => operands_failure(old(state).base.adts@, locals@, operands@) == Some(e)
                && final(state).extends(old(state)),
        },
{
    let ghost adts = state.base.adts@;
    let mut exported: Vec<Operand> = Vec::new();
    let mut i: usize = 0;
    proof {
        assert(operands@.skip(0) =~= operands@);
        assert(operands@.take(0) =~= Seq::<HostOperand>::empty());
        lemma_grown_by_none(state);
    }
    while i < operands.len()
        invariant
            i <= operands.len(),
            adts == old(state).base.adts@,
            exported@.len() == i,
            forall|k: int|
                0 <= k < i ==> operand_of(adts, locals@, operands@[k]) == Ok::<Operand, Fatal>(
                    #[trigger] exported@[k],
                ),
            operands_failure(adts, locals@, operands@) == operands_failure(
                adts,
                locals@,
                operands@.skip(i as int),
            ),
            state.grown_by(old(state), operands_footprint(adts, locals@, operands@.take(i as int))),
        decreases operands.len() - i,
    {
        let ghost before = *state;
        proof {
            assert(operands@.skip(i as int).skip(1) =~= operands@.skip(i + 1));
            assert(operands@.skip(i as int)[0] == operands@[i as int]);
            assert(operands@.take(i + 1).drop_last() =~= operands@.take(i as int));
            assert(operands@.take(i + 1).last() == operands@[i as int]);
        }
        match translate_operand(state, locals, &operands[i]) {
            Ok(operand) => {
                exported.push(operand);
                proof {
                    lemma_grown_twice(
                        old(state),
                        &before,
                        state,
                        operands_footprint(adts, locals@, operands@.take(i as int)),
                        operand_footprint(adts, locals@, operands@[i as int]),
                    );
                }
            },
            Err(e) => {
                proof {
                    lemma_grown_extends(
                        old(state),
                        &before,
                        operands_footprint(adts, locals@, operands@.take(i as int)),
                    );
                    lemma_grown_extends(
                        &before,
                        state,
                        operand_footprint(adts, locals@, operands@[i as int]),
                    );
                    lemma_extends_twice(old(state), &before, state);
                }
                return Err(e);
            },
        }
        i = i + 1;
    }
    proof {
        assert(operands@.take(i as int) =~= operands@);
    }
    Ok(exported)
}

/// The definition that an aggregate of kind `kind` names.
pub open spec fn aggregate_footprint(kind: AggregateKind) -> Footprint {
    match kind {
        AggregateKind::Adt(id, _, _, _, _, _) => Footprint::def_id(id),
        AggregateKind::Closure(id, _) => Footprint::def_id(id),
        AggregateKind::Generator(id, _, _) => Footprint::def_id(id),
        _ => Footprint::none(),
    }
}

/// Why the host value `rvalue` cannot be translated, if it cannot: the
/// failure of the first of its places and operands that cannot be, or its
/// kind where that has no exported form.
pub open spec fn rvalue_failure(adts: Seq<AdtDef>, locals: Seq<HostLocalDecl>, rvalue: HostRvalue)
    -> Option<Fatal> {
    match rvalue {
        HostRvalue::Use(operand) => error_of(operand_of(adts, locals, operand)),
        HostRvalue::Ref(_, place) => error_of(host_place_of(adts, locals, place)),
        HostRvalue::ThreadLocalRef(_) => None,
        HostRvalue::AddressOf(_, place) => error_of(host_place_of(adts, locals, place)),
        HostRvalue::Len(place) => error_of(host_place_of(adts, locals, place)),
        HostRvalue::Cast(_, operand, _) => error_of(operand_of(adts, locals, operand)),
        HostRvalue::BinaryOp(_, left, right) => first_failure(
            error_of(operand_of(adts, locals, left)),
            error_of(operand_of(adts, locals, right)),
        ),
        HostRvalue::CheckedBinaryOp(_, left, right) => first_failure(
            error_of(operand_of(adts, locals, left)),
            error_of(operand_of(adts, locals, right)),
        ),
        HostRvalue::UnaryOp(_, operand) => error_of(operand_of(adts, locals, operand)),
        HostRvalue::Discriminant(place) => error_of(host_place_of(adts, locals, place)),
        HostRvalue::Aggregate(_, operands) => operands_failure(adts, locals, operands@),
        HostRvalue::CopyForDeref(place) => error_of(host_place_of(adts, locals, place)),
        HostRvalue::Repeat(operand, _) => error_of(operand_of(adts, locals, operand)),
        HostRvalue::NullaryOp(_, _) => None,
        HostRvalue::ShallowInitBox(operand, _) => error_of(operand_of(adts, locals, operand)),
        HostRvalue::Unsupported(kind) => Some(Fatal::NotYetTranslated(kind)),
    }
}

/// Whether `exported` is the translation of the host value `rvalue`: the
/// same kind of value, of the translations of its places and operands.
pub open spec fn is_rvalue_of(
    adts: Seq<AdtDef>,
    locals: Seq<HostLocalDecl>,
    rvalue: HostRvalue,
    exported: Rvalue,
) -> bool {
    match rvalue {
        HostRvalue::Use(operand) => exported matches Rvalue::Use(o) && operand_of(
            adts,
            locals,
            operand,
        ) == Ok::<Operand, Fatal>(o),
        HostRvalue::Ref(kind, place) => exported matches Rvalue::Ref(k, p) && k == kind
            && host_place_of(adts, locals, place) == Ok::<Place, Fatal>(p),
        HostRvalue::ThreadLocalRef(id) => exported matches Rvalue::ThreadLocalRef(d) && d == id,
        HostRvalue::AddressOf(mutability, place) => exported matches Rvalue::AddressOf(m, p) && m
            == mutability && host_place_of(adts, locals, place) == Ok::<Place, Fatal>(p),
        HostRvalue::Len(place) => exported matches Rvalue::Len(p) && host_place_of(
            adts,
            locals,
            place,
        ) == Ok::<Place, Fatal>(p),
        HostRvalue::Cast(kind, operand, ty) => exported matches Rvalue::Cast(k, o, t) && k == kind
            && t == ty && operand_of(adts, locals, operand) == Ok::<Operand, Fatal>(o),
        HostRvalue::BinaryOp(op, left, right) => exported matches Rvalue::BinaryOp(b, (l, r)) && b
            == op && operand_of(adts, locals, left) == Ok::<Operand, Fatal>(l) && operand_of(
            adts,
            locals,
            right,
        ) == Ok::<Operand, Fatal>(r),
        HostRvalue::CheckedBinaryOp(op, left, right) => exported matches Rvalue::CheckedBinaryOp(
            b,
            (l, r),
        ) && b == op && operand_of(adts, locals, left) == Ok::<Operand, Fatal>(l) && operand_of(
            adts,
            locals,
            right,
        ) == Ok::<Operand, Fatal>(r),
        HostRvalue::UnaryOp(op, operand) => exported matches Rvalue::UnaryOp(u, o) && u == op
            && operand_of(adts, locals, operand) == Ok::<Operand, Fatal>(o),
        HostRvalue::Discriminant(place) => exported matches Rvalue::Discriminant(p)
            && host_place_of(adts, locals, place) == Ok::<Place, Fatal>(p),
        HostRvalue::Aggregate(kind, operands) => exported matches Rvalue::Aggregate(k, os) && k
            == kind && are_operands_of(adts, locals, operands@, os@),
        HostRvalue::CopyForDeref(place) => exported matches Rvalue::CopyForDeref(p)
            && host_place_of(adts, locals, place) == Ok::<Place, Fatal>(p),
        HostRvalue::Repeat(operand, count) => exported matches Rvalue::Repeat(o, c) && operand_of(
            adts,
            locals,
            operand,
        ) == Ok::<Operand, Fatal>(o) && c == constant_of(count).literal,
        HostRvalue::NullaryOp(op, ty) => exported matches Rvalue::NullaryOp(o, t) && t == ty
            && same_null_op(op, o),
        HostRvalue::ShallowInitBox(operand, ty) => exported matches Rvalue::ShallowInitBox(o, t)
            && t == ty && operand_of(adts, locals, operand) == Ok::<Operand, Fatal>(o),
        HostRvalue::Unsupported(_) => false,
    }
}

/// Whether two operations without operands are the same operation.
pub open spec fn same_null_op(one: NullOp, other: NullOp) -> bool {
    match one {
        NullOp::SizeOf => other is SizeOf,
        NullOp::AlignOf => other is AlignOf,
        NullOp::OffsetOf(fields) => other matches NullOp::OffsetOf(others) && others@ == fields@,
    }
}

/// What the translation of the host value `rvalue` adds to the context.
pub open spec fn rvalue_footprint(
    adts: Seq<AdtDef>,
    locals: Seq<HostLocalDecl>,
    rvalue: HostRvalue,
) -> Footprint {
    match rvalue {
        HostRvalue::Use(operand) => operand_footprint(adts, locals, operand),
        HostRvalue::Ref(_, place) => place_footprint(adts, locals, place),
        HostRvalue::ThreadLocalRef(id) => Footprint::def_id(id),
        HostRvalue::AddressOf(_, place) => place_footprint(adts, locals, place),
        HostRvalue::Len(place) => place_footprint(adts, locals, place),
        HostRvalue::Cast(_, operand, _) => operand_footprint(adts, locals, operand),
        HostRvalue::BinaryOp(_, left, right) => operand_footprint(adts, locals, left).and(
            operand_footprint(adts, locals, right),
        ),
        HostRvalue::CheckedBinaryOp(_, left, right) => operand_footprint(adts, locals, left).and(
            operand_footprint(adts, locals, right),
        ),
        HostRvalue::UnaryOp(_, operand) => operand_footprint(adts, locals, operand),
        HostRvalue::Discriminant(place) => place_footprint(adts, locals, place),
        HostRvalue::Aggregate(kind, operands) => aggregate_footprint(kind).and(
            operands_footprint(adts, locals, operands@),
        ),
        HostRvalue::CopyForDeref(place) => place_footprint(adts, locals, place),
        HostRvalue::Repeat(operand, count) => operand_footprint(adts, locals, operand).and(
            constant_footprint(count),
        ),
        HostRvalue::NullaryOp(_, _) => Footprint::none(),
        HostRvalue::ShallowInitBox(operand, _) => operand_footprint(adts, locals, operand),
        HostRvalue::Unsupported(_) => Footprint::none(),
    }
}

/// Copies an operation without operands.
fn copy_null_op(op: &NullOp) -> (copy: NullOp)
    ensures
        same_null_op(*op, copy),
{
    match op {
        NullOp::SizeOf => NullOp::SizeOf,
        NullOp::AlignOf => NullOp::AlignOf,
        NullOp::OffsetOf(fields) => {
            let mut copy: Vec<FieldIdx> = Vec::new();
            let mut i: usize = 0;
            while i < fields.len()
                invariant
                    i <= fields.len(),
                    copy@ == fields@.take(i as int),
                decreases fields.len() - i,
            {
                copy.push(fields[i]);
                assert(fields@.take(i + 1) =~= fields@.take(i as int).push(fields@[i as int]));
                i = i + 1;
            }
            assert(fields@.take(i as int) =~= fields@);
            NullOp::OffsetOf(copy)
        },
    }
}

/// Translates the kind of an aggregate: the definition that it names is met.
fn translate_aggregate_kind(state: &mut State, kind: &AggregateKind) -> (exported: AggregateKind)
    requires
        old(state).wf(),
    ensures
        exported == *kind,
        final(state).grown_by(old(state), aggregate_footprint(*kind)),
{
    match kind {
        AggregateKind::Array(ty) => {
            proof {
                lemma_grown_by_none(state);
            }
            AggregateKind::Array(ty.clone())
        },
        AggregateKind::Tuple => {
            proof {
                lemma_grown_by_none(state);
            }
            AggregateKind::Tuple
        },
        AggregateKind::Adt(id, variant, adt_kind, args, annotation, field) => AggregateKind::Adt(
            state.translate_def_id(*id),
            *variant,
            *adt_kind,
            args.clone(),
            *annotation,
            *field,
        ),
        AggregateKind::Closure(id, args) => AggregateKind::Closure(
            state.translate_def_id(*id),
            args.clone(),
        ),
        AggregateKind::Generator(id, args, movability) => AggregateKind::Generator(
            state.translate_def_id(*id),
            args.clone(),
            *movability,
        ),
    }
}

/// Translates two operands, the left one first.
fn translate_operand_pair(
    state: &mut State,
    locals: &Vec<HostLocalDecl>,
    left: &HostOperand,
    right: &HostOperand,
) -> (result: Result<(Operand, Operand), Fatal>)
    requires
        old(state).wf(),
    ensures
        match result {
            Ok(pair) => operand_of(old(state).base.adts@, locals@, *left) == Ok::<Operand, Fatal>(
                pair.0,
            ) && operand_of(old(state).base.adts@, locals@, *right) == Ok::<Operand, Fatal>(pair.1)
                && final(state).grown_by(
                old(state),
                operand_footprint(old(state).base.adts@, locals@, *left).and(
                    operand_footprint(old(state).base.adts@, locals@, *right),
                ),
            ),
            Err(e) => first_failure(
                error_of(operand_of(old(state).base.adts@, locals@, *left)),
                error_of(operand_of(old(state).base.adts@, locals@, *right)),
            ) == Some(e) && final(state).extends(old(state)),
        },
{
    let ghost adts = state.base.adts@;
    match translate_operand(state, locals, left) {
        Err(e) => Err(e),
        Ok(l) => {
            let ghost middle = *state;
            match translate_operand(state, locals, right) {
                Err(e) => Err(e),
                Ok(r) => {
                    proof {
                        lemma_grown_twice(
                            old(state),
                            &middle,
                            state,
                            operand_footprint(adts, locals@, *left),
                            operand_footprint(adts, locals@, *right),
                        );
                    }
                    Ok((l, r))
                },
            }
        },
    }
}

/// Translates an aggregate: its kind, then its operands.
fn translate_aggregate(
    state: &mut State,
    locals: &Vec<HostLocalDecl>,
    kind: &AggregateKind,
    operands: &Vec<HostOperand>,
) -> (result: Result<(AggregateKind, Vec<Operand>), Fatal>)
    requires
        old(state).wf(),
    ensures
        match result {
            Ok(pair) => operands_failure(old(state).base.adts@, locals@, operands@) is None
                && pair.0 == *kind && are_operands_of(
                old(state).base.adts@,
                locals@,
                operands@,
                pair.1@,
            ) && final(state).grown_by(
                old(state),
                aggregate_footprint(*kind).and(
                    operands_footprint(old(state).base.adts@, locals@, operands@),
                ),
            ),
            Err(e) => operands_failure(old(state).base.adts@, locals@, operands@) == Some(e)
                && final(state).extends(old(state)),
        },
{
    let ghost adts = state.base.adts@;
    let exported_kind = translate_aggregate_kind(state, kind);
    let ghost middle = *state;
    match translate_operands(state, locals, operands) {
        Ok(os) => {
            proof {
                lemma_grown_twice(
                    old(state),
                    &middle,
                    state,
                    aggregate_footprint(*kind),
                    operands_footprint(adts, locals@, operands@),
                );
            }
            Ok((exported_kind, os))
        },
        Err(e) => {
            proof {
                lemma_extends_twice(old(state), &middle, state);
            }
            Err(e)
        },
    }
}

/// Translates the value that is repeated and the count.
fn translate_repeat(
    state: &mut State,
    locals: &Vec<HostLocalDecl>,
    operand: &HostOperand,
    count: &HostConstant,
) -> (result: Result<(Operand, ConstantExpr), Fatal>)
    requires
        old(state).wf(),
    ensures
        match result {
            Ok(pair) => operand_of(old(state).base.adts@, locals@, *operand) == Ok::<
                Operand,
                Fatal,
            >(pair.0) && pair.1 == constant_of(*count).literal && final(state).grown_by(
                old(state),
                operand_footprint(old(state).base.adts@, locals@, *operand).and(
                    constant_footprint(*count),
                ),
            ),
            Err(e) => operand_of(old(state).base.adts@, locals@, *operand) == Err::<Operand, Fatal>(
                e,
            ) && final(state).extends(old(state)),
        },
{
    let ghost adts = state.base.adts@;
    match translate_operand(state, locals, operand) {
        Err(e) => Err(e),
        Ok(o) => {
            let ghost middle = *state;
            let constant = translate_constant(state, count);
            proof {
                lemma_grown_twice(
                    old(state),
                    &middle,
                    state,
                    operand_footprint(adts, locals@, *operand),
                    constant_footprint(*count),
                );
            }
            Ok((o, constant.literal))
        },
    }
}

/// Translates a value that a statement computes.
#[verifier::rlimit(40)]
pub fn translate_rvalue(state: &mut State, locals: &Vec<HostLocalDecl>, rvalue: &HostRvalue) -> (result:
    Result<Rvalue, Fatal>)
    requires
        old(state).wf(),
    ensures
        match result {
            Ok(exported) => rvalue_failure(old(state).base.adts@, locals@, *rvalue) is None
                && is_rvalue_of(old(state).base.adts@, locals@, *rvalue, exported) && final(state).grown_by(old(state), rvalue_footprint(old(state).base.adts@, locals@, *rvalue)),
            Err(e) => rvalue_failure(old(state).base.adts@, locals@, *rvalue) == Some(e) && final(state).extends(old(state)),
        },
{
    match rvalue {
        HostRvalue::Use(operand) => match translate_operand(state, locals, operand) {
            Ok(o) => Ok(Rvalue::Use(o)),
            Err(e) => Err(e),
        },
        HostRvalue::Ref(kind, place) => match translate_place(state, locals, place) {
            Ok(p) => Ok(Rvalue::Ref(*kind, p)),
            Err(e) => Err(e),
        },
        HostRvalue::ThreadLocalRef(id) => Ok(Rvalue::ThreadLocalRef(state.translate_def_id(*id))),
        HostRvalue::AddressOf(mutability, place) => match translate_place(state, locals, place) {
            Ok(p) => Ok(Rvalue::AddressOf(*mutability, p)),
            Err(e) => Err(e),
        },
        HostRvalue::Len(place) => match translate_place(state, locals, place) {
            Ok(p) => Ok(Rvalue::Len(p)),
            Err(e) => Err(e),
        },
        HostRvalue::Cast(kind, operand, ty) => match translate_operand(state, locals, operand) {
            Ok(o) => Ok(Rvalue::Cast(*kind, o, ty.clone())),
            Err(e) => Err(e),
        },
        HostRvalue::BinaryOp(op, left, right) => match translate_operand_pair(
            state,
            locals,
            left,
            right,
        ) {
            Ok(pair) => Ok(Rvalue::BinaryOp(*op, pair)),
            Err(e) => Err(e),
        },
        HostRvalue::CheckedBinaryOp(op, left, right) => match translate_operand_pair(
            state,
            locals,
            left,
            right,
        ) {
            Ok(pair) => Ok(Rvalue::CheckedBinaryOp(*op, pair)),
            Err(e) => Err(e),
        },
        HostRvalue::UnaryOp(op, operand) => match translate_operand(state, locals, operand) {
            Ok(o) => Ok(Rvalue::UnaryOp(*op, o)),
            Err(e) => Err(e),
        },
        HostRvalue::Discriminant(place) => match translate_place(state, locals, place) {
            Ok(p) => Ok(Rvalue::Discriminant(p)),
            Err(e) => Err(e),
        },
        HostRvalue::Aggregate(kind, operands) => match translate_aggregate(
            state,
            locals,
            kind,
            operands,
        ) {
            Ok((k, os)) => Ok(Rvalue::Aggregate(k, os)),
            Err(e) => Err(e),
        },
        HostRvalue::CopyForDeref(place) => match translate_place(state, locals, place) {
            Ok(p) => Ok(Rvalue::CopyForDeref(p)),
            Err(e) => Err(e),
        },
        HostRvalue::Repeat(operand, count) => match translate_repeat(
            state,
            locals,
            operand,
            count,
        ) {
            Ok((o, c)) => Ok(Rvalue::Repeat(o, c)),
            Err(e) => Err(e),
        },
        HostRvalue::NullaryOp(op, ty) => {
            proof {
                lemma_grown_by_none(state);
            }
            Ok(Rvalue::NullaryOp(copy_null_op(op), ty.clone()))
        },
        HostRvalue::ShallowInitBox(operand, ty) => match translate_operand(
            state,
            locals,
            operand,
        ) {
            Ok(o) => Ok(Rvalue::ShallowInitBox(o, ty.clone())),
            Err(e) => Err(e),
        },
        HostRvalue::Unsupported(kind) => {
            proof {
                lemma_grown_by_none(state);
            }
            Err(Fatal::NotYetTranslated(*kind))
        },
    }
}

/// The exported form of where a statement or a terminator comes from.
pub open spec fn source_info_of(info: HostSourceInfo) -> SourceInfo {
    SourceInfo { span: exported_span(info.span), scope: info.scope }
}

/// Translates where a statement or a terminator comes from.
pub fn translate_source_info(state: &mut State, info: &HostSourceInfo) -> (exported: SourceInfo)
    requires
        old(state).wf(),
    ensures
        exported == source_info_of(*info),
        final(state).grown_by(old(state), Footprint::span(info.span)),
{
    SourceInfo { span: state.translate_span(info.span), scope: info.scope }
}

/// Why what the host statement does cannot be translated, if it cannot.
pub open spec fn statement_kind_failure(
    adts: Seq<AdtDef>,
    locals: Seq<HostLocalDecl>,
    kind: HostStatementKind,
) -> Option<Fatal> {
    match kind {
        HostStatementKind::Assign(place, rvalue) => first_failure(
            error_of(host_place_of(adts, locals, place)),
            rvalue_failure(adts, locals, rvalue),
        ),
        HostStatementKind::FakeRead(_, place) => error_of(host_place_of(adts, locals, place)),
        HostStatementKind::SetDiscriminant { place, .. } => error_of(
            host_place_of(adts, locals, place),
        ),
        HostStatementKind::Deinit(place) => error_of(host_place_of(adts, locals, place)),
        HostStatementKind::StorageLive(_) => None,
        HostStatementKind::StorageDead(_) => None,
        HostStatementKind::Retag(_, place) => error_of(host_place_of(adts, locals, place)),
        HostStatementKind::PlaceMention(place) => error_of(host_place_of(adts, locals, place)),
        HostStatementKind::ConstEvalCounter => None,
        HostStatementKind::Nop => None,
        HostStatementKind::Unsupported(kind) => Some(Fatal::NotYetTranslated(kind)),
    }
}

/// Whether `exported` is the translation of what the host statement does.
pub open spec fn is_statement_kind_of(
    adts: Seq<AdtDef>,
    locals: Seq<HostLocalDecl>,
    kind: HostStatementKind,
    exported: StatementKind,
) -> bool {
    match kind {
        HostStatementKind::Assign(place, rvalue) => exported matches StatementKind::Assign((p, r))
            && host_place_of(adts, locals, place) == Ok::<Place, Fatal>(p) && is_rvalue_of(
            adts,
            locals,
            rvalue,
            r,
        ),
        HostStatementKind::FakeRead(cause, place) => exported matches StatementKind::FakeRead(
            (c, p),
        ) && c == cause && host_place_of(adts, locals, place) == Ok::<Place, Fatal>(p),
        HostStatementKind::SetDiscriminant {
            place,
            variant_index,
        } => exported matches StatementKind::SetDiscriminant { place: p, variant_index: v } && v
            == variant_index && host_place_of(adts, locals, place) == Ok::<Place, Fatal>(p),
        HostStatementKind::Deinit(place) => exported matches StatementKind::Deinit(p)
            && host_place_of(adts, locals, place) == Ok::<Place, Fatal>(p),
        HostStatementKind::StorageLive(local) => exported matches StatementKind::StorageLive(l)
            && l == local,
        HostStatementKind::StorageDead(local) => exported matches StatementKind::StorageDead(l)
            && l == local,
        HostStatementKind::Retag(kind, place) => exported matches StatementKind::Retag(k, p) && k
            == kind && host_place_of(adts, locals, place) == Ok::<Place, Fatal>(p),
        HostStatementKind::PlaceMention(place) => exported matches StatementKind::PlaceMention(p)
            && host_place_of(adts, locals, place) == Ok::<Place, Fatal>(p),
        HostStatementKind::ConstEvalCounter => exported is ConstEvalCounter,
        HostStatementKind::Nop => exported is Nop,
        HostStatementKind::Unsupported(_) => false,
    }
}

/// What the translation of what the host statement does adds to the context.
pub open spec fn statement_kind_footprint(
    adts: Seq<AdtDef>,
    locals: Seq<HostLocalDecl>,
    kind: HostStatementKind,
) -> Footprint {
    match kind {
        HostStatementKind::Assign(place, rvalue) => place_footprint(adts, locals, place).and(
            rvalue_footprint(adts, locals, rvalue),
        ),
        HostStatementKind::FakeRead(_, place) => place_footprint(adts, locals, place),
        HostStatementKind::SetDiscriminant { place, .. } => place_footprint(adts, locals, place),
        HostStatementKind::Deinit(place) => place_footprint(adts, locals, place),
        HostStatementKind::Retag(_, place) => place_footprint(adts, locals, place),
        HostStatementKind::PlaceMention(place) => place_footprint(adts, locals, place),
        _ => Footprint::none(),
    }
}

/// Translates what a statement does.
pub fn translate_statement_kind(
    state: &mut State,
    locals: &Vec<HostLocalDecl>,
    kind: &HostStatementKind,
) -> (result: Result<StatementKind, Fatal>)
    requires
        old(state).wf(),
    ensures
        match result {
            Ok(exported) => statement_kind_failure(old(state).base.adts@, locals@, *kind) is None
                && is_statement_kind_of(old(state).base.adts@, locals@, *kind, exported)
                && final(state).grown_by(
                old(state),
                statement_kind_footprint(old(state).base.adts@, locals@, *kind),
            ),
            Err(e) => statement_kind_failure(old(state).base.adts@, locals@, *kind) == Some(e)
                && final(state).extends(old(state)),
        },
{
    let ghost adts = state.base.adts@;
    match kind {
        HostStatementKind::Assign(place, rvalue) => match translate_place(state, locals, place) {
            Err(e) => Err(e),
            Ok(p) => {
                let ghost middle = *state;
                match translate_rvalue(state, locals, rvalue) {
                    Err(e) => {
                        proof {
                            lemma_extends_twice(old(state), &middle, state);
                        }
                        Err(e)
                    },
                    Ok(r) => {
                        proof {
                            lemma_grown_twice(
                                old(state),
                                &middle,
                                state,
                                place_footprint(adts, locals@, *place),
                                rvalue_footprint(adts, locals@, *rvalue),
                            );
                        }
                        Ok(StatementKind::Assign((p, r)))
                    },
                }
            },
        },
        HostStatementKind::FakeRead(cause, place) => match translate_place(state, locals, place) {
            Ok(p) => Ok(StatementKind::FakeRead((*cause, p))),
            Err(e) => Err(e),
        },
        HostStatementKind::SetDiscriminant { place, variant_index } => match translate_place(
            state,
            locals,
            place,
        ) {
            Ok(p) => Ok(StatementKind::SetDiscriminant { place: p, variant_index: *variant_index }),
            Err(e) => Err(e),
        },
        HostStatementKind::Deinit(place) => match translate_place(state, locals, place) {
            Ok(p) => Ok(StatementKind::Deinit(p)),
            Err(e) => Err(e),
        },
        HostStatementKind::StorageLive(local) => {
            proof {
                lemma_grown_by_none(state);
            }
            Ok(StatementKind::StorageLive(*local))
        },
        HostStatementKind::StorageDead(local) => {
            proof {
                lemma_grown_by_none(state);
            }
            Ok(StatementKind::StorageDead(*local))
        },
        HostStatementKind::Retag(kind, place) => match translate_place(state, locals, place) {
            Ok(p) => Ok(StatementKind::Retag(*kind, p)),
            Err(e) => Err(e),
        },
        HostStatementKind::PlaceMention(place) => match translate_place(state, locals, place) {
            Ok(p) => Ok(StatementKind::PlaceMention(p)),
            Err(e) => Err(e),
        },
        HostStatementKind::ConstEvalCounter => {
            proof {
                lemma_grown_by_none(state);
            }
            Ok(StatementKind::ConstEvalCounter)
        },
        HostStatementKind::Nop => {
            proof {
                lemma_grown_by_none(state);
            }
            Ok(StatementKind::Nop)
        },
        HostStatementKind::Unsupported(kind) => {
            proof {
                lemma_grown_by_none(state);
            }
            Err(Fatal::NotYetTranslated(*kind))
        },
    }
}

/// Whether `exported` is the translation of the host statement `statement`.
pub open spec fn is_statement_of(
    adts: Seq<AdtDef>,
    locals: Seq<HostLocalDecl>,
    statement: HostStatement,
    exported: Statement,
) -> bool {
    exported.source_info == source_info_of(statement.source_info) && is_statement_kind_of(
        adts,
        locals,
        statement.kind,
        *exported.kind,
    )
}

/// What the translation of `statement` adds to the context.
pub open spec fn statement_footprint(
    adts: Seq<AdtDef>,
    locals: Seq<HostLocalDecl>,
    statement: HostStatement,
) -> Footprint {
    Footprint::span(statement.source_info.span).and(
        statement_kind_footprint(adts, locals, statement.kind),
    )
}

/// Translates a statement.
pub fn translate_statement(state: &mut State, locals: &Vec<HostLocalDecl>, statement: &HostStatement) -> (result:
    Result<Statement, Fatal>)
    requires
        old(state).wf(),
    ensures
        match result {
            Ok(exported) => statement_kind_failure(old(state).base.adts@, locals@, statement.kind)
                is None && is_statement_of(old(state).base.adts@, locals@, *statement, exported)
                && final(state).grown_by(
                old(state),
                statement_footprint(old(state).base.adts@, locals@, *statement),
            ),
            Err(e) => statement_kind_failure(old(state).base.adts@, locals@, statement.kind)
                == Some(e) && final(state).extends(old(state)),
        },
{
    let ghost adts = state.base.adts@;
    let source_info = translate_source_info(state, &statement.source_info);
    let ghost middle = *state;
    match translate_statement_kind(state, locals, &statement.kind) {
        Err(e) => {
            proof {
                lemma_extends_twice(old(state), &middle, state);
            }
            Err(e)
        },
        Ok(kind) => {
            proof {
                lemma_grown_twice(
                    old(state),
                    &middle,
                    state,
                    Footprint::span(statement.source_info.span),
                    statement_kind_footprint(adts, locals@, statement.kind),
                );
            }
            Ok(Statement { source_info, kind: Box::new(kind) })
        },
    }
}

/// Why the way the host block ends cannot be translated, if it cannot.
pub open spec fn terminator_kind_failure(
    adts: Seq<AdtDef>,
    locals: Seq<HostLocalDecl>,
    kind: HostTerminatorKind,
) -> Option<Fatal> {
    match kind {
        HostTerminatorKind::SwitchInt { discr, targets } => match operand_of(adts, locals, discr) {
            Err(e) => Some(e),
            Ok(d) => error_of(lifted_switch(d.spec_ty(), targets.branches@, targets.otherwise)),
        },
        HostTerminatorKind::Drop { place, .. } => error_of(host_place_of(adts, locals, place)),
        HostTerminatorKind::Yield { value, resume_arg, .. } => first_failure(
            error_of(operand_of(adts, locals, value)),
            error_of(host_place_of(adts, locals, resume_arg)),
        ),
        HostTerminatorKind::Call { func, args, destination, .. } => first_failure(
            error_of(function_of(func)),
            first_failure(
                operands_failure(adts, locals, args@),
                error_of(host_place_of(adts, locals, destination)),
            ),
        ),
        HostTerminatorKind::Unsupported(kind) => Some(Fatal::NotYetTranslated(kind)),
        _ => None,
    }
}

/// Whether `exported` is the translation of the way the host block ends. A
/// switch is lifted by the type of the value it switches on, and a call
/// names the function that it calls.
pub open spec fn is_terminator_kind_of(
    adts: Seq<AdtDef>,
    locals: Seq<HostLocalDecl>,
    kind: HostTerminatorKind,
    exported: TerminatorKind,
) -> bool {
    match kind {
        HostTerminatorKind::Goto { target } => exported matches TerminatorKind::Goto { target: t }
            && t == target,
        HostTerminatorKind::SwitchInt {
            discr,
            targets,
        } => exported matches TerminatorKind::SwitchInt { discr: d, targets: t } && operand_of(
            adts,
            locals,
            discr,
        ) == Ok::<Operand, Fatal>(d) && lifted_switch(
            d.spec_ty(),
            targets.branches@,
            targets.otherwise,
        ) == Ok::<SwitchTargetsView, Fatal>(t@),
        HostTerminatorKind::Resume => exported is Resume,
        HostTerminatorKind::Terminate => exported is Terminate,
        HostTerminatorKind::Return => exported is Return,
        HostTerminatorKind::Unreachable => exported is Unreachable,
        HostTerminatorKind::Drop {
            place,
            target,
            unwind,
            replace,
        } => exported matches TerminatorKind::Drop { place: p, target: t, unwind: u, replace: r }
            && host_place_of(adts, locals, place) == Ok::<Place, Fatal>(p) && t == target && u
            == unwind && r == replace,
        HostTerminatorKind::Call {
            func,
            args,
            destination,
            target,
            unwind,
            from_hir_call,
            fn_span,
        } => exported matches TerminatorKind::Call {
            fun_id,
            substs,
            args: a,
            destination: d,
            target: t,
            unwind: u,
            from_hir_call: h,
            fn_span: s,
        } && function_of(func) == Ok::<(DefId, TyList), Fatal>((fun_id, substs))
            && are_operands_of(adts, locals, args@, a@) && host_place_of(adts, locals, destination)
            == Ok::<Place, Fatal>(d) && t == target && u == unwind && h == from_hir_call && s
            == exported_span(fn_span),
        HostTerminatorKind::Yield {
            value,
            resume,
            resume_arg,
            drop,
        } => exported matches TerminatorKind::Yield { value: v, resume: r, resume_arg: a, drop: d }
            && operand_of(adts, locals, value) == Ok::<Operand, Fatal>(v) && r == resume
            && host_place_of(adts, locals, resume_arg) == Ok::<Place, Fatal>(a) && d == drop,
        HostTerminatorKind::GeneratorDrop => exported is GeneratorDrop,
        HostTerminatorKind::FalseEdge {
            real_target,
            imaginary_target,
        } => exported matches TerminatorKind::FalseEdge { real_target: r, imaginary_target: i } && r
            == real_target && i == imaginary_target,
        HostTerminatorKind::FalseUnwind {
            real_target,
            unwind,
        } => exported matches TerminatorKind::FalseUnwind { real_target: r, unwind: u } && r
            == real_target && u == unwind,
        HostTerminatorKind::Unsupported(_) => false,
    }
}

/// What the translation of the way the host block ends adds to the context.
pub open spec fn terminator_kind_footprint(
    adts: Seq<AdtDef>,
    locals: Seq<HostLocalDecl>,
    kind: HostTerminatorKind,
) -> Footprint {
    match kind {
        HostTerminatorKind::SwitchInt { discr, .. } => operand_footprint(adts, locals, discr),
        HostTerminatorKind::Drop { place, .. } => place_footprint(adts, locals, place),
        HostTerminatorKind::Yield { value, resume_arg, .. } => operand_footprint(
            adts,
            locals,
            value,
        ).and(place_footprint(adts, locals, resume_arg)),
        HostTerminatorKind::Call { func, args, destination, fn_span, .. } => (match function_of(
            func,
        ) {
            Ok(callee) => Footprint::def_id(callee.0),
            Err(_) => Footprint::none(),
        }).and(operands_footprint(adts, locals, args@)).and(
            place_footprint(adts, locals, destination),
        ).and(Footprint::span(fn_span)),
        _ => Footprint::none(),
    }
}

/// The call of `func` with the arguments `args`, as the host holds it.
pub open spec fn call_of(
    func: HostOperand,
    args: Vec<HostOperand>,
    destination: HostPlace,
    target: Option<BasicBlock>,
    unwind: UnwindAction,
    from_hir_call: bool,
    fn_span: HostSpan,
) -> HostTerminatorKind {
    HostTerminatorKind::Call { func, args, destination, target, unwind, from_hir_call, fn_span }
}

/// Translates a call: the function that is called, then the arguments, then
/// the place that takes the result.
fn translate_call(
    state: &mut State,
    locals: &Vec<HostLocalDecl>,
    func: &HostOperand,
    args: &Vec<HostOperand>,
    destination: &HostPlace,
    target: Option<BasicBlock>,
    unwind: UnwindAction,
    from_hir_call: bool,
    fn_span: HostSpan,
) -> (result: Result<TerminatorKind, Fatal>)
    requires
        old(state).wf(),
    ensures
        match result {
            Ok(exported) => terminator_kind_failure(
                old(state).base.adts@,
                locals@,
                call_of(*func, *args, *destination, target, unwind, from_hir_call, fn_span),
            ) is None && is_terminator_kind_of(
                old(state).base.adts@,
                locals@,
                call_of(*func, *args, *destination, target, unwind, from_hir_call, fn_span),
                exported,
            ) && final(state).grown_by(
                old(state),
                terminator_kind_footprint(
                    old(state).base.adts@,
                    locals@,
                    call_of(*func, *args, *destination, target, unwind, from_hir_call, fn_span),
                ),
            ),
            Err(e) => terminator_kind_failure(
                old(state).base.adts@,
                locals@,
                call_of(*func, *args, *destination, target, unwind, from_hir_call, fn_span),
            ) == Some(e) && final(state).extends(old(state)),
        },
{
    let ghost adts = state.base.adts@;
    match get_function_from_operand(func) {
        Err(e) => {
            proof {
                lemma_grown_by_none(state);
            }
            Err(e)
        },
        Ok((callee, substs)) => {
            let fun_id = state.translate_def_id(callee);
            let ghost first = *state;
            match translate_operands(state, locals, args) {
                Err(e) => {
                    proof {
                        lemma_extends_twice(old(state), &first, state);
                    }
                    Err(e)
                },
                Ok(exported_args) => {
                    let ghost second = *state;
                    match translate_place(state, locals, destination) {
                        Err(e) => {
                            proof {
                                lemma_extends_twice(&first, &second, state);
                                lemma_extends_twice(old(state), &first, state);
                            }
                            Err(e)
                        },
                        Ok(exported_destination) => {
                            let ghost third = *state;
                            let span = state.translate_span(fn_span);
                            proof {
                                let a = Footprint::def_id(callee);
                                let b = operands_footprint(adts, locals@, args@);
                                let c = place_footprint(adts, locals@, *destination);
                                let d = Footprint::span(fn_span);
                                lemma_grown_twice(old(state), &first, &second, a, b);
                                lemma_grown_twice(old(state), &second, &third, a.and(b), c);
                                lemma_grown_twice(old(state), &third, state, a.and(b).and(c), d);
                            }
                            Ok(
                                TerminatorKind::Call {
                                    fun_id,
                                    substs,
                                    args: exported_args,
                                    destination: exported_destination,
                                    target,
                                    unwind,
                                    from_hir_call,
                                    fn_span: span,
                                },
                            )
                        },
                    }
                },
            }
        },
    }
}

/// Translates the way a basic block ends.
pub fn translate_terminator_kind(
    state: &mut State,
    locals: &Vec<HostLocalDecl>,
    kind: &HostTerminatorKind,
) -> (result: Result<TerminatorKind, Fatal>)
    requires
        old(state).wf(),
    ensures
        match result {
            Ok(exported) => terminator_kind_failure(old(state).base.adts@, locals@, *kind) is None
                && is_terminator_kind_of(old(state).base.adts@, locals@, *kind, exported)
                && final(state).grown_by(
                old(state),
                terminator_kind_footprint(old(state).base.adts@, locals@, *kind),
            ),
            Err(e) => terminator_kind_failure(old(state).base.adts@, locals@, *kind) == Some(e)
                && final(state).extends(old(state)),
        },
{
    match kind {
        HostTerminatorKind::Goto { target } => {
            proof {
                lemma_grown_by_none(state);
            }
            Ok(TerminatorKind::Goto { target: *target })
        },
        HostTerminatorKind::SwitchInt { discr, targets } => {
            match translate_operand(state, locals, discr) {
                Err(e) => Err(e),
                Ok(d) => match translate_switch_targets(d.ty(), targets) {
                    Err(e) => Err(e),
                    Ok(t) => Ok(TerminatorKind::SwitchInt { discr: d, targets: t }),
                },
            }
        },
        HostTerminatorKind::Resume => {
            proof {
                lemma_grown_by_none(state);
            }
            Ok(TerminatorKind::Resume)
        },
        HostTerminatorKind::Terminate => {
            proof {
                lemma_grown_by_none(state);
            }
            Ok(TerminatorKind::Terminate)
        },
        HostTerminatorKind::Return => {
            proof {
                lemma_grown_by_none(state);
            }
            Ok(TerminatorKind::Return)
        },
        HostTerminatorKind::Unreachable => {
            proof {
                lemma_grown_by_none(state);
            }
            Ok(TerminatorKind::Unreachable)
        },
        HostTerminatorKind::Drop { place, target, unwind, replace } => match translate_place(
            state,
            locals,
            place,
        ) {
            Ok(p) => Ok(
                TerminatorKind::Drop {
                    place: p,
                    target: *target,
                    unwind: *unwind,
                    replace: *replace,
                },
            ),
            Err(e) => Err(e),
        },
        HostTerminatorKind::Call {
            func,
            args,
            destination,
            target,
            unwind,
            from_hir_call,
            fn_span,
        } => translate_call(
            state,
            locals,
            func,
            args,
            destination,
            *target,
            *unwind,
            *from_hir_call,
            *fn_span,
        ),
        HostTerminatorKind::Yield { value, resume, resume_arg, drop } => match translate_operand(
            state,
            locals,
            value,
        ) {
            Err(e) => Err(e),
            Ok(v) => {
                let ghost adts = old(state).base.adts@;
                let ghost middle = *state;
                match translate_place(state, locals, resume_arg) {
                    Err(e) => {
                        proof {
                            lemma_grown_extends(
                                old(state),
                                &middle,
                                operand_footprint(adts, locals@, *value),
                            );
                            lemma_grown_extends(
                                &middle,
                                state,
                                place_footprint(adts, locals@, *resume_arg),
                            );
                            lemma_extends_twice(old(state), &middle, state);
                        }
                        Err(e)
                    },
                    Ok(a) => {
                        proof {
                            lemma_grown_twice(
                                old(state),
                                &middle,
                                state,
                                operand_footprint(adts, locals@, *value),
                                place_footprint(adts, locals@, *resume_arg),
                            );
                        }
                        Ok(
                            TerminatorKind::Yield {
                                value: v,
                                resume: *resume,
                                resume_arg: a,
                                drop: *drop,
                            },
                        )
                    },
                }
            },
        },
        HostTerminatorKind::GeneratorDrop => {
            proof {
                lemma_grown_by_none(state);
            }
            Ok(TerminatorKind::GeneratorDrop)
        },
        HostTerminatorKind::FalseEdge { real_target, imaginary_target } => {
            proof {
                lemma_grown_by_none(state);
            }
            Ok(
                TerminatorKind::FalseEdge {
                    real_target: *real_target,
                    imaginary_target: *imaginary_target,
                },
            )
        },
        HostTerminatorKind::FalseUnwind { real_target, unwind } => {
            proof {
                lemma_grown_by_none(state);
            }
            Ok(TerminatorKind::FalseUnwind { real_target: *real_target, unwind: *unwind })
        },
        HostTerminatorKind::Unsupported(kind) => {
            proof {
                lemma_grown_by_none(state);
            }
            Err(Fatal::NotYetTranslated(*kind))
        },
    }
}

/// Whether `exported` is the translation of the host terminator.
pub open spec fn is_terminator_of(
    adts: Seq<AdtDef>,
    locals: Seq<HostLocalDecl>,
    terminator: HostTerminator,
    exported: Terminator,
) -> bool {
    exported.source_info == source_info_of(terminator.source_info) && is_terminator_kind_of(
        adts,
        locals,
        terminator.kind,
        exported.kind,
    )
}

/// What the translation of `terminator` adds to the context.
pub open spec fn terminator_footprint(
    adts: Seq<AdtDef>,
    locals: Seq<HostLocalDecl>,
    terminator: HostTerminator,
) -> Footprint {
    Footprint::span(terminator.source_info.span).and(
        terminator_kind_footprint(adts, locals, terminator.kind),
    )
}

/// Translates the end of a basic block.
pub fn translate_terminator(
    state: &mut State,
    locals: &Vec<HostLocalDecl>,
    terminator: &HostTerminator,
) -> (result: Result<Terminator, Fatal>)
    requires
        old(state).wf(),
    ensures
        match result {
            Ok(exported) => terminator_kind_failure(old(state).base.adts@, locals@, terminator.kind)
                is None && is_terminator_of(old(state).base.adts@, locals@, *terminator, exported)
                && final(state).grown_by(
                old(state),
                terminator_footprint(old(state).base.adts@, locals@, *terminator),
            ),
            Err(e) => terminator_kind_failure(old(state).base.adts@, locals@, terminator.kind)
                == Some(e) && final(state).extends(old(state)),
        },
{
    let ghost adts = state.base.adts@;
    let source_info = translate_source_info(state, &terminator.source_info);
    let ghost middle = *state;
    match translate_terminator_kind(state, locals, &terminator.kind) {
        Err(e) => {
            proof {
                lemma_extends_twice(old(state), &middle, state);
            }
            Err(e)
        },
        Ok(kind) => {
            proof {
                lemma_grown_twice(
                    old(state),
                    &middle,
                    state,
                    Footprint::span(terminator.source_info.span),
                    terminator_kind_footprint(adts, locals@, terminator.kind),
                );
            }
            Ok(Terminator { source_info, kind })
        },
    }
}

/// The failure of the first statement of `statements` that cannot be
/// translated.
pub open spec fn statements_failure(
    adts: Seq<AdtDef>,
    locals: Seq<HostLocalDecl>,
    statements: Seq<HostStatement>,
) -> Option<Fatal>
    decreases statements.len(),
{
    if statements.len() == 0 {
        None
    } else {
        first_failure(
            statement_kind_failure(adts, locals, statements[0].kind),
            statements_failure(adts, locals, statements.skip(1)),
        )
    }
}

/// Whether `exported` holds the translations of `statements`, one for one.
pub open spec fn are_statements_of(
    adts: Seq<AdtDef>,
    locals: Seq<HostLocalDecl>,
    statements: Seq<HostStatement>,
    exported: Seq<Statement>,
) -> bool {
    &&& exported.len() == statements.len()
    &&& forall|i: int|
        0 <= i < statements.len() ==> is_statement_of(
            adts,
            locals,
            statements[i],
            #[trigger] exported[i],
        )
}

/// What the translation of `statements` adds to the context.
pub open spec fn statements_footprint(
    adts: Seq<AdtDef>,
    locals: Seq<HostLocalDecl>,
    statements: Seq<HostStatement>,
) -> Footprint
    decreases statements.len(),
{
    if statements.len() == 0 {
        Footprint::none()
    } else {
        statements_footprint(adts, locals, statements.drop_last()).and(
            statement_footprint(adts, locals, statements.last()),
        )
    }
}

/// Translates the statements of a basic block, first to last.
pub fn translate_statements(
    state: &mut State,
    locals: &Vec<HostLocalDecl>,
    statements: &Vec<HostStatement>,
) -> (result: Result<Vec<Statement>, Fatal>)
    requires
        old(state).wf(),
    ensures
        match result {
            Ok(exported) => statements_failure(old(state).base.adts@, locals@, statements@) is None
                && are_statements_of(old(state).base.adts@, locals@, statements@, exported@)
                && final(state).grown_by(
                old(state),
                statements_footprint(old(state).base.adts@, locals@, statements@),
            ),
            Err(e) => statements_failure(old(state).base.adts@, locals@, statements@) == Some(e)
                && final(state).extends(old(state)),
        },
{
    let ghost adts = state.base.adts@;
    let mut exported: Vec<Statement> = Vec::new();
    let mut i: usize = 0;
    proof {
        assert(statements@.skip(0) =~= statements@);
        assert(statements@.take(0) =~= Seq::<HostStatement>::empty());
        lemma_grown_by_none(state);
    }
    while i < statements.len()
        invariant
            i <= statements.len(),
            adts == old(state).base.adts@,
            exported@.len() == i,
            forall|k: int|
                0 <= k < i ==> is_statement_of(
                    adts,
                    locals@,
                    statements@[k],
                    #[trigger] exported@[k],
                ),
            statements_failure(adts, locals@, statements@) == statements_failure(
                adts,
                locals@,
                statements@.skip(i as int),
            ),
            state.grown_by(
                old(state),
                statements_footprint(adts, locals@, statements@.take(i as int)),
            ),
        decreases statements.len() - i,
    {
        let ghost before = *state;
        proof {
            assert(statements@.skip(i as int).skip(1) =~= statements@.skip(i + 1));
            assert(statements@.skip(i as int)[0] == statements@[i as int]);
            assert(statements@.take(i + 1).drop_last() =~= statements@.take(i as int));
            assert(statements@.take(i + 1).last() == statements@[i as int]);
        }
        match translate_statement(state, locals, &statements[i]) {
            Ok(statement) => {
                exported.push(statement);
                proof {
                    lemma_grown_twice(
                        old(state),
                        &before,
                        state,
                        statements_footprint(adts, locals@, statements@.take(i as int)),
                        statement_footprint(adts, locals@, statements@[i as int]),
                    );
                }
            },
            Err(e) => {
                proof {
                    lemma_extends_twice(old(state), &before, state);
                }
                return Err(e);
            },
        }
        i = i + 1;
    }
    proof {
        assert(statements@.take(i as int) =~= statements@);
    }
    Ok(exported)
}

/// Why the host block cannot be translated, if it cannot: the failure of
/// its first statement that cannot be, or that of its terminator.
pub open spec fn block_failure(
    adts: Seq<AdtDef>,
    locals: Seq<HostLocalDecl>,
    block: HostBasicBlockData,
) -> Option<Fatal> {
    first_failure(
        statements_failure(adts, locals, block.statements@),
        match block.terminator {
            Some(terminator) => terminator_kind_failure(adts, locals, terminator.kind),
            None => None,
        },
    )
}

/// Whether `exported` is the translation of the host block.
pub open spec fn is_block_of(
    adts: Seq<AdtDef>,
    locals: Seq<HostLocalDecl>,
    block: HostBasicBlockData,
    exported: BasicBlockData,
) -> bool {
    &&& exported.is_cleanup == block.is_cleanup
    &&& are_statements_of(adts, locals, block.statements@, exported.statements@)
    &&& match block.terminator {
        Some(terminator) => exported.terminator is Some && is_terminator_of(
            adts,
            locals,
            terminator,
            exported.terminator->Some_0,
        ),
        None => exported.terminator is None,
    }
}

/// What the translation of `block` adds to the context.
pub open spec fn block_footprint(
    adts: Seq<AdtDef>,
    locals: Seq<HostLocalDecl>,
    block: HostBasicBlockData,
) -> Footprint {
    statements_footprint(adts, locals, block.statements@).and(
        match block.terminator {
            Some(terminator) => terminator_footprint(adts, locals, terminator),
            None => Footprint::none(),
        },
    )
}

/// Translates a basic block: its statements, then its terminator.
pub fn translate_block(state: &mut State, locals: &Vec<HostLocalDecl>, block: &HostBasicBlockData) -> (result:
    Result<BasicBlockData, Fatal>)
    requires
        old(state).wf(),
    ensures
        match result {
            Ok(exported) => block_failure(old(state).base.adts@, locals@, *block) is None
                && is_block_of(old(state).base.adts@, locals@, *block, exported) && final(state).grown_by(old(state), block_footprint(old(state).base.adts@, locals@, *block)),
            Err(e) => block_failure(old(state).base.adts@, locals@, *block) == Some(e) && final(state).extends(old(state)),
        },
{
    let ghost adts = state.base.adts@;
    match translate_statements(state, locals, &block.statements) {
        Err(e) => Err(e),
        Ok(statements) => {
            let ghost middle = *state;
            match &block.terminator {
                None => {
                    proof {
                        let a = statements_footprint(adts, locals@, block.statements@);
                        lemma_grown_by_none(state);
                        lemma_grown_twice(old(state), &middle, state, a, Footprint::none());
                    }
                    Ok(
                        BasicBlockData {
                            statements,
                            terminator: None,
                            is_cleanup: block.is_cleanup,
                        },
                    )
                },
                Some(terminator) => match translate_terminator(state, locals, terminator) {
                    Err(e) => {
                        proof {
                            lemma_extends_twice(old(state), &middle, state);
                        }
                        Err(e)
                    },
                    Ok(exported) => {
                        proof {
                            lemma_grown_twice(
                                old(state),
                                &middle,
                                state,
                                statements_footprint(adts, locals@, block.statements@),
                                terminator_footprint(adts, locals@, *terminator),
                            );
                        }
                        Ok(
                            BasicBlockData {
                                statements,
                                terminator: Some(exported),
                                is_cleanup: block.is_cleanup,
                            },
                        )
                    },
                },
            }
        },
    }
}

/// The failure of the first block of `blocks` that cannot be translated.
pub open spec fn blocks_failure(
    adts: Seq<AdtDef>,
    locals: Seq<HostLocalDecl>,
    blocks: Seq<HostBasicBlockData>,
) -> Option<Fatal>
    decreases blocks.len(),
{
    if blocks.len() == 0 {
        None
    } else {
        first_failure(
            block_failure(adts, locals, blocks[0]),
            blocks_failure(adts, locals, blocks.skip(1)),
        )
    }
}

/// Whether `exported` holds the translations of `blocks`, one for one.
pub open spec fn are_blocks_of(
    adts: Seq<AdtDef>,
    locals: Seq<HostLocalDecl>,
    blocks: Seq<HostBasicBlockData>,
    exported: Seq<BasicBlockData>,
) -> bool {
    &&& exported.len() == blocks.len()
    &&& forall|i: int|
        0 <= i < blocks.len() ==> is_block_of(adts, locals, blocks[i], #[trigger] exported[i])
}

/// What the translation of `blocks` adds to the context.
pub open spec fn blocks_footprint(
    adts: Seq<AdtDef>,
    locals: Seq<HostLocalDecl>,
    blocks: Seq<HostBasicBlockData>,
) -> Footprint
    decreases blocks.len(),
{
    if blocks.len() == 0 {
        Footprint::none()
    } else {
        blocks_footprint(adts, locals, blocks.drop_last()).and(
            block_footprint(adts, locals, blocks.last()),
        )
    }
}

/// Translates the basic blocks of a body, first to last.
pub fn translate_blocks(
    state: &mut State,
    locals: &Vec<HostLocalDecl>,
    blocks: &Vec<HostBasicBlockData>,
) -> (result: Result<Vec<BasicBlockData>, Fatal>)
    requires
        old(state).wf(),
    ensures
        match result {
            Ok(exported) => blocks_failure(old(state).base.adts@, locals@, blocks@) is None
                && are_blocks_of(old(state).base.adts@, locals@, blocks@, exported@) && final(state).grown_by(old(state), blocks_footprint(old(state).base.adts@, locals@, blocks@)),
            Err(e) => blocks_failure(old(state).base.adts@, locals@, blocks@) == Some(e) && final(state).extends(old(state)),
        },
{
    let ghost adts = state.base.adts@;
    let mut exported: Vec<BasicBlockData> = Vec::new();
    let mut i: usize = 0;
    proof {
        assert(blocks@.skip(0) =~= blocks@);
        assert(blocks@.take(0) =~= Seq::<HostBasicBlockData>::empty());
        lemma_grown_by_none(state);
    }
    while i < blocks.len()
        invariant
            i <= blocks.len(),
            adts == old(state).base.adts@,
            exported@.len() == i,
            forall|k: int|
                0 <= k < i ==> is_block_of(adts, locals@, blocks@[k], #[trigger] exported@[k]),
            blocks_failure(adts, locals@, blocks@) == blocks_failure(
                adts,
                locals@,
                blocks@.skip(i as int),
            ),
            state.grown_by(old(state), blocks_footprint(adts, locals@, blocks@.take(i as int))),
        decreases blocks.len() - i,
    {
        let ghost before = *state;
        proof {
            assert(blocks@.skip(i as int).skip(1) =~= blocks@.skip(i + 1));
            assert(blocks@.skip(i as int)[0] == blocks@[i as int]);
            assert(blocks@.take(i + 1).drop_last() =~= blocks@.take(i as int));
            assert(blocks@.take(i + 1).last() == blocks@[i as int]);
        }
        match translate_block(state, locals, &blocks[i]) {
            Ok(block) => {
                exported.push(block);
                proof {
                    lemma_grown_twice(
                        old(state),
                        &before,
                        state,
                        blocks_footprint(adts, locals@, blocks@.take(i as int)),
                        block_footprint(adts, locals@, blocks@[i as int]),
                    );
                }
            },
            Err(e) => {
                proof {
                    lemma_extends_twice(old(state), &before, state);
                }
                return Err(e);
            },
        }
        i = i + 1;
    }
    proof {
        assert(blocks@.take(i as int) =~= blocks@);
    }
    Ok(exported)
}

/// Why the declaration `decl` cannot be translated, if it cannot: it holds
/// a node of a kind that has no exported form.
pub open spec fn local_decl_failure(decl: HostLocalDecl) -> Option<Fatal> {
    first_failure(
        match decl.local_info {
            ClearCrossCrate::Kept(node) => Some(Fatal::NotYetTranslated(node.kind)),
            ClearCrossCrate::Clear => None,
        },
        match decl.user_ty {
            Some(node) => Some(Fatal::NotYetTranslated(node.kind)),
            None => None,
        },
    )
}

/// The name that the debug information `infos` gives the local variable at
/// `index` of the declarations of a body.
pub open spec fn name_at(infos: Seq<HostVarDebugInfo>, index: int) -> Option<Symbol> {
    if 0 <= index <= u32::MAX {
        local_name(infos, Local { index: index as u32 })
    } else {
        None
    }
}

/// Whether `exported` is the translation of the declaration `decl`, which
/// stands at `index` among the declarations of a body with the debug
/// information `infos`: the declaration, with the name of the variable.
pub open spec fn is_local_decl_of(
    infos: Seq<HostVarDebugInfo>,
    index: int,
    decl: HostLocalDecl,
    exported: LocalDecl,
) -> bool {
    &&& exported.mutability == decl.mutability
    &&& exported.local_info is Clear
    &&& exported.internal == decl.internal
    &&& exported.ty == decl.ty
    &&& exported.user_ty is None
    &&& exported.source_info == source_info_of(decl.source_info)
    &&& exported.name == name_at(infos, index)
}

/// The failure of the first declaration of `decls` that cannot be translated.
pub open spec fn local_decls_failure(decls: Seq<HostLocalDecl>) -> Option<Fatal>
    decreases decls.len(),
{
    if decls.len() == 0 {
        None
    } else {
        first_failure(local_decl_failure(decls[0]), local_decls_failure(decls.skip(1)))
    }
}

/// Whether `exported` holds the translations of the declarations `decls`.
pub open spec fn are_local_decls_of(
    infos: Seq<HostVarDebugInfo>,
    decls: Seq<HostLocalDecl>,
    exported: Seq<LocalDecl>,
) -> bool {
    &&& exported.len() == decls.len()
    &&& forall|i: int|
        0 <= i < decls.len() ==> is_local_decl_of(infos, i, decls[i], #[trigger] exported[i])
}

/// The spans of the declarations `decls`.
pub open spec fn local_decls_footprint(decls: Seq<HostLocalDecl>) -> Footprint
    decreases decls.len(),
{
    if decls.len() == 0 {
        Footprint::none()
    } else {
        local_decls_footprint(decls.drop_last()).and(
            Footprint::span(decls.last().source_info.span),
        )
    }
}

/// Translates the declarations of the local variables of a body, and gives
/// each variable the name that the debug information has for it.
pub fn translate_local_decls(
    state: &mut State,
    decls: &Vec<HostLocalDecl>,
    var_debug_info: &Vec<HostVarDebugInfo>,
) -> (result: Result<Vec<LocalDecl>, Fatal>)
    requires
        old(state).wf(),
    ensures
        match result {
            Ok(exported) => local_decls_failure(decls@) is None && are_local_decls_of(
                var_debug_info@,
                decls@,
                exported@,
            ) && final(state).grown_by(old(state), local_decls_footprint(decls@)),
            Err(e) => local_decls_failure(decls@) == Some(e) && final(state).extends(old(state)),
        },
{
    let mut exported: Vec<LocalDecl> = Vec::new();
    let mut i: usize = 0;
    proof {
        assert(decls@.skip(0) =~= decls@);
        assert(decls@.take(0) =~= Seq::<HostLocalDecl>::empty());
        lemma_grown_by_none(state);
    }
    while i < decls.len()
        invariant
            i <= decls.len(),
            exported@.len() == i,
            forall|k: int|
                0 <= k < i ==> is_local_decl_of(
                    var_debug_info@,
                    k,
                    decls@[k],
                    #[trigger] exported@[k],
                ),
            local_decls_failure(decls@) == local_decls_failure(decls@.skip(i as int)),
            state.grown_by(old(state), local_decls_footprint(decls@.take(i as int))),
            state.wf(),
        decreases decls.len() - i,
    {
        let ghost before = *state;
        let decl = &decls[i];
        proof {
            assert(decls@.skip(i as int).skip(1) =~= decls@.skip(i + 1));
            assert(decls@.skip(i as int)[0] == decls@[i as int]);
            assert(decls@.take(i + 1).drop_last() =~= decls@.take(i as int));
            assert(decls@.take(i + 1).last() == decls@[i as int]);
        }
        match decl.local_info {
            ClearCrossCrate::Kept(node) => {
                proof {
                    lemma_grown_extends(
                        old(state),
                        state,
                        local_decls_footprint(decls@.take(i as int)),
                    );
                }
                return Err(Fatal::NotYetTranslated(node.kind));
            },
            ClearCrossCrate::Clear => {},
        }
        match decl.user_ty {
            Some(node) => {
                proof {
                    lemma_grown_extends(
                        old(state),
                        state,
                        local_decls_footprint(decls@.take(i as int)),
                    );
                }
                return Err(Fatal::NotYetTranslated(node.kind));
            },
            None => {},
        }
        let source_info = translate_source_info(state, &decl.source_info);
        let name = if i <= u32::MAX as usize {
            name_of_local(Local { index: i as u32 }, var_debug_info)
        } else {
            None
        };
        exported.push(
            LocalDecl {
                mutability: decl.mutability,
                local_info: ClearCrossCrate::Clear,
                internal: decl.internal,
                ty: decl.ty.clone(),
                user_ty: None,
                source_info,
                name,
            },
        );
        proof {
            lemma_grown_twice(
                old(state),
                &before,
                state,
                local_decls_footprint(decls@.take(i as int)),
                Footprint::span(decl.source_info.span),
            );
        }
        i = i + 1;
    }
    proof {
        assert(decls@.take(i as int) =~= decls@);
    }
    Ok(exported)
}

/// Why the scope `scope` cannot be translated, if it cannot.
pub open spec fn scope_failure(scope: HostSourceScopeData) -> Option<Fatal> {
    match scope.inlined {
        Some(node) => Some(Fatal::NotYetTranslated(node.kind)),
        None => None,
    }
}

/// The translation of the scope `scope`, which was not inlined.
pub open spec fn scope_of(scope: HostSourceScopeData) -> SourceScopeData {
    SourceScopeData {
        span: exported_span(scope.span),
        parent_scope: scope.parent_scope,
        inlined: None,
        inlined_parent_scope: scope.inlined_parent_scope,
        local_data: scope.local_data,
    }
}

/// The failure of the first scope of `scopes` that cannot be translated.
pub open spec fn scopes_failure(scopes: Seq<HostSourceScopeData>) -> Option<Fatal>
    decreases scopes.len(),
{
    if scopes.len() == 0 {
        None
    } else {
        first_failure(scope_failure(scopes[0]), scopes_failure(scopes.skip(1)))
    }
}

/// The spans of the scopes `scopes`.
pub open spec fn scopes_footprint(scopes: Seq<HostSourceScopeData>) -> Footprint
    decreases scopes.len(),
{
    if scopes.len() == 0 {
        Footprint::none()
    } else {
        scopes_footprint(scopes.drop_last()).and(Footprint::span(scopes.last().span))
    }
}

/// Translates the lexical scopes of a body.
pub fn translate_scopes(state: &mut State, scopes: &Vec<HostSourceScopeData>) -> (result: Result<
    Vec<SourceScopeData>,
    Fatal,
>)
    requires
        old(state).wf(),
    ensures
        match result {
            Ok(exported) => scopes_failure(scopes@) is None && exported@ == scopes@.map_values(
                |scope: HostSourceScopeData| scope_of(scope),
            ) && final(state).grown_by(old(state), scopes_footprint(scopes@)),
            Err(e) => scopes_failure(scopes@) == Some(e) && final(state).extends(old(state)),
        },
{
    let mut exported: Vec<SourceScopeData> = Vec::new();
    let mut i: usize = 0;
    proof {
        assert(scopes@.skip(0) =~= scopes@);
        assert(scopes@.take(0) =~= Seq::<HostSourceScopeData>::empty());
        lemma_grown_by_none(state);
    }
    while i < scopes.len()
        invariant
            i <= scopes.len(),
            exported@ == scopes@.take(i as int).map_values(
                |scope: HostSourceScopeData| scope_of(scope),
            ),
            scopes_failure(scopes@) == scopes_failure(scopes@.skip(i as int)),
            state.grown_by(old(state), scopes_footprint(scopes@.take(i as int))),
            state.wf(),
        decreases scopes.len() - i,
    {
        let ghost before = *state;
        let scope = &scopes[i];
        proof {
            assert(scopes@.skip(i as int).skip(1) =~= scopes@.skip(i + 1));
            assert(scopes@.skip(i as int)[0] == scopes@[i as int]);
            assert(scopes@.take(i + 1).drop_last() =~= scopes@.take(i as int));
            assert(scopes@.take(i + 1).last() == scopes@[i as int]);
        }
        match scope.inlined {
            Some(node) => {
                proof {
                    lemma_grown_extends(old(state), state, scopes_footprint(scopes@.take(i as int)));
                }
                return Err(Fatal::NotYetTranslated(node.kind));
            },
            None => {},
        }
        let span = state.translate_span(scope.span);
        exported.push(
            SourceScopeData {
                span,
                parent_scope: scope.parent_scope,
                inlined: None,
                inlined_parent_scope: scope.inlined_parent_scope,
                local_data: scope.local_data,
            },
        );
        proof {
            lemma_grown_twice(
                old(state),
                &before,
                state,
                scopes_footprint(scopes@.take(i as int)),
                Footprint::span(scope.span),
            );
            assert(scopes@.take(i + 1).map_values(|scope: HostSourceScopeData| scope_of(scope))
                =~= scopes@.take(i as int).map_values(
                |scope: HostSourceScopeData| scope_of(scope),
            ).push(scope_of(*scope)));
        }
        i = i + 1;
    }
    proof {
        assert(scopes@.take(i as int) =~= scopes@);
    }
    Ok(exported)
}

/// The exported form of a name of the debug information.
pub open spec fn var_debug_info_of(info: HostVarDebugInfo) -> VarDebugInfo {
    VarDebugInfo {
        name: info.name,
        local: match info.place {
            Some(place) => if place.projection@.len() == 0 {
                Some(place.local)
            } else {
                None
            },
            None => None,
        },
    }
}

/// Translates the debug information of a body.
pub fn translate_var_debug_info(infos: &Vec<HostVarDebugInfo>) -> (exported: Vec<VarDebugInfo>)
    ensures
        exported@ == infos@.map_values(|info: HostVarDebugInfo| var_debug_info_of(info)),
{
    let mut exported: Vec<VarDebugInfo> = Vec::new();
    let mut i: usize = 0;
    while i < infos.len()
        invariant
            i <= infos.len(),
            exported@ == infos@.take(i as int).map_values(
                |info: HostVarDebugInfo| var_debug_info_of(info),
            ),
        decreases infos.len() - i,
    {
        let local = match &infos[i].place {
            Some(place) => if place.projection.len() == 0 {
                Some(place.local)
            } else {
                None
            },
            None => None,
        };
        exported.push(VarDebugInfo { name: infos[i].name, local });
        proof {
            assert(infos@.take(i + 1).map_values(|info: HostVarDebugInfo| var_debug_info_of(info))
                =~= infos@.take(i as int).map_values(
                |info: HostVarDebugInfo| var_debug_info_of(info),
            ).push(var_debug_info_of(infos@[i as int])));
        }
        i = i + 1;
    }
    proof {
        assert(infos@.take(i as int) =~= infos@);
    }
    exported
}

/// What the translation of the constants `constants` adds to the context.
pub open spec fn constants_footprint(constants: Seq<HostConstant>) -> Footprint
    decreases constants.len(),
{
    if constants.len() == 0 {
        Footprint::none()
    } else {
        constants_footprint(constants.drop_last()).and(constant_footprint(constants.last()))
    }
}

/// Translates the constants that a body needs.
pub fn translate_constants(state: &mut State, constants: &Vec<HostConstant>) -> (exported: Vec<
    Constant,
>)
    requires
        old(state).wf(),
    ensures
        exported@ == constants@.map_values(|constant: HostConstant| constant_of(constant)),
        final(state).grown_by(old(state), constants_footprint(constants@)),
{
    let mut exported: Vec<Constant> = Vec::new();
    let mut i: usize = 0;
    proof {
        assert(constants@.take(0) =~= Seq::<HostConstant>::empty());
        lemma_grown_by_none(state);
    }
    while i < constants.len()
        invariant
            i <= constants.len(),
            exported@ == constants@.take(i as int).map_values(
                |constant: HostConstant| constant_of(constant),
            ),
            state.grown_by(old(state), constants_footprint(constants@.take(i as int))),
            state.wf(),
        decreases constants.len() - i,
    {
        let ghost before = *state;
        proof {
            assert(constants@.take(i + 1).drop_last() =~= constants@.take(i as int));
            assert(constants@.take(i + 1).last() == constants@[i as int]);
        }
        exported.push(translate_constant(state, &constants[i]));
        proof {
            lemma_grown_twice(
                old(state),
                &before,
                state,
                constants_footprint(constants@.take(i as int)),
                constant_footprint(constants@[i as int]),
            );
            assert(constants@.take(i + 1).map_values(|constant: HostConstant| constant_of(constant))
                =~= constants@.take(i as int).map_values(
                |constant: HostConstant| constant_of(constant),
            ).push(constant_of(constants@[i as int])));
        }
        i = i + 1;
    }
    proof {
        assert(constants@.take(i as int) =~= constants@);
    }
    exported
}

/// Why the host body cannot be translated, if it cannot: the failure of the
/// first of its blocks, scopes and declarations that cannot be, in this
/// order, or the kind of what it holds for a generator.
pub open spec fn body_failure(adts: Seq<AdtDef>, body: HostMirBody) -> Option<Fatal> {
    first_failure(
        blocks_failure(adts, body.local_decls@, body.basic_blocks@),
        first_failure(
            scopes_failure(body.source_scopes@),
            first_failure(
                match body.generator {
                    Some(node) => Some(Fatal::NotYetTranslated(node.kind)),
                    None => None,
                },
                local_decls_failure(body.local_decls@),
            ),
        ),
    )
}

/// Whether `exported` is the translation of the host body.
pub open spec fn is_body_of<KIND>(adts: Seq<AdtDef>, body: HostMirBody, exported: MirBody<KIND>)
    -> bool {
    &&& are_blocks_of(adts, body.local_decls@, body.basic_blocks@, exported.basic_blocks@)
    &&& exported.phase == body.phase
    &&& exported.pass_count == body.pass_count
    &&& exported.source == body.source
    &&& exported.source_scopes@ == body.source_scopes@.map_values(
        |scope: HostSourceScopeData| scope_of(scope),
    )
    &&& exported.generator is None
    &&& are_local_decls_of(body.var_debug_info@, body.local_decls@, exported.local_decls@)
    &&& exported.arg_count == body.arg_count
    &&& exported.spread_arg == body.spread_arg
    &&& exported.var_debug_info@ == body.var_debug_info@.map_values(
        |info: HostVarDebugInfo| var_debug_info_of(info),
    )
    &&& exported.span == exported_span(body.span)
    &&& exported.required_consts@ == body.required_consts@.map_values(
        |constant: HostConstant| constant_of(constant),
    )
    &&& exported.is_polymorphic == body.is_polymorphic
    &&& exported.injection_phase == body.injection_phase
    &&& exported.tainted_by_errors == body.tainted_by_errors
}

/// What the translation of the host body adds to the context.
pub open spec fn body_footprint(adts: Seq<AdtDef>, body: HostMirBody) -> Footprint {
    blocks_footprint(adts, body.local_decls@, body.basic_blocks@).and(
        Footprint::def_id(body.source.def_id),
    ).and(scopes_footprint(body.source_scopes@)).and(local_decls_footprint(body.local_decls@)).and(
        Footprint::span(body.span),
    ).and(constants_footprint(body.required_consts@))
}

/// Translates a lowered body.
pub fn translate_body<KIND>(state: &mut State, body: &HostMirBody) -> (result: Result<
    MirBody<KIND>,
    Fatal,
>)
    requires
        old(state).wf(),
    ensures
        match result {
            Ok(exported) => body_failure(old(state).base.adts@, *body) is None && is_body_of(
                old(state).base.adts@,
                *body,
                exported,
            ) && final(state).grown_by(old(state), body_footprint(old(state).base.adts@, *body)),
            Err(e) => body_failure(old(state).base.adts@, *body) == Some(e) && final(state).extends(
                old(state),
            ),
        },
{
    let ghost adts = state.base.adts@;
    let ghost f1 = blocks_footprint(adts, body.local_decls@, body.basic_blocks@);
    let ghost f2 = Footprint::def_id(body.source.def_id);
    let ghost f3 = scopes_footprint(body.source_scopes@);
    let ghost f4 = local_decls_footprint(body.local_decls@);
    let ghost f5 = Footprint::span(body.span);
    let ghost f6 = constants_footprint(body.required_consts@);
    let basic_blocks = match translate_blocks(state, &body.local_decls, &body.basic_blocks) {
        Ok(blocks) => blocks,
        Err(e) => {
            return Err(e);
        },
    };
    let ghost s1 = *state;
    state.translate_def_id(body.source.def_id);
    let ghost s2 = *state;
    proof {
        lemma_grown_twice(old(state), &s1, &s2, f1, f2);
    }
    let source_scopes = match translate_scopes(state, &body.source_scopes) {
        Ok(scopes) => scopes,
        Err(e) => {
            proof {
                lemma_grown_extends(old(state), &s2, f1.and(f2));
                lemma_extends_twice(old(state), &s2, state);
            }
            return Err(e);
        },
    };
    let ghost s3 = *state;
    proof {
        lemma_grown_twice(old(state), &s2, &s3, f1.and(f2), f3);
    }
    match body.generator {
        Some(node) => {
            proof {
                lemma_grown_extends(old(state), &s3, f1.and(f2).and(f3));
            }
            return Err(Fatal::NotYetTranslated(node.kind));
        },
        None => {},
    }
    let local_decls = match translate_local_decls(state, &body.local_decls, &body.var_debug_info) {
        Ok(decls) => decls,
        Err(e) => {
            proof {
                lemma_grown_extends(old(state), &s3, f1.and(f2).and(f3));
                lemma_extends_twice(old(state), &s3, state);
            }
            return Err(e);
        },
    };
    let ghost s4 = *state;
    proof {
        lemma_grown_twice(old(state), &s3, &s4, f1.and(f2).and(f3), f4);
    }
    let var_debug_info = translate_var_debug_info(&body.var_debug_info);
    let span = state.translate_span(body.span);
    let ghost s5 = *state;
    proof {
        lemma_grown_twice(old(state), &s4, &s5, f1.and(f2).and(f3).and(f4), f5);
    }
    let required_consts = translate_constants(state, &body.required_consts);
    proof {
        lemma_grown_twice(old(state), &s5, state, f1.and(f2).and(f3).and(f4).and(f5), f6);
    }
    Ok(
        MirBody {
            basic_blocks,
            phase: body.phase,
            pass_count: body.pass_count,
            source: body.source,
            source_scopes,
            generator: None,
            local_decls,
            arg_count: body.arg_count,
            spread_arg: body.spread_arg,
            var_debug_info,
            span,
            required_consts,
            is_polymorphic: body.is_polymorphic,
            injection_phase: body.injection_phase,
            tainted_by_errors: body.tainted_by_errors,
            _kind: PhantomData,
        },
    )
}

} // verus!
