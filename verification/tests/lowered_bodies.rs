use hax_export::error::{Fatal, HostKind};
use hax_export::host::{
    AdtDef, HostBasicBlockData, HostConstant, HostConstantKind, HostLocalDecl, HostMirBody,
    HostOperand, HostPlace, HostProjectionElem, HostRvalue, HostSourceInfo, HostSourceScopeData,
    HostStatement, HostStatementKind, HostTerminator, HostTerminatorKind, HostVarDebugInfo,
};
use hax_export::ids::{
    BasicBlock, DefId, FieldIdx, HostSpan, IntTy, Local, Mutability, SourceScope, Span, Symbol, Ty,
    TyList, VariantIdx,
};
use hax_export::mir::{
    AdtKind, AggregateKind, BasicBlockData, BorrowKind, Built, CastKind, ClearCrossCrate,
    Constant, ConstantExpr, ConstantExprKind, LocalDecl, MirBody, MirPhase, MirSource, NullOp,
    Operand,
    Place, PlaceKind, ProjectionElem, ProjectionElemFieldKind, Rvalue, Safety, ScalarInt,
    SourceInfo, SourceScopeData, SourceScopeLocalData, Statement, StatementKind, SwitchTargets,
    Terminator, TerminatorKind, UnwindAction, Untranslated, VarDebugInfo, VariantInformations,
};
use hax_export::options::Options;
use hax_export::state::State;
use hax_export::switch::RawSwitchTargets;
use hax_export::thir::{BinOp, LitKind, UnOp};
use hax_export::translate::{
    get_function_from_operand, name_of_local, translate_block, translate_body,
    translate_constant, translate_local_decls, translate_operand, translate_operands,
    translate_place, translate_rvalue, translate_scopes, translate_statement,
    translate_terminator, translate_var_debug_info,
};

fn host_span(lo: u32) -> HostSpan {
    HostSpan { file: 2, lo, hi: lo + 3, ctxt: 1 }
}

fn span(lo: u32) -> Span {
    Span { file: 2, lo, hi: lo + 3 }
}

fn def(index: u32) -> DefId {
    DefId { krate: 4, index }
}

fn local(index: u32) -> Local {
    Local { index }
}

fn block(index: u32) -> BasicBlock {
    BasicBlock { index }
}

fn info(lo: u32) -> HostSourceInfo {
    HostSourceInfo { span: host_span(lo), scope: SourceScope { index: 0 } }
}

fn exported_info(lo: u32) -> SourceInfo {
    SourceInfo { span: span(lo), scope: SourceScope { index: 0 } }
}

fn variant_info() -> VariantInformations {
    VariantInformations {
        typ: def(50),
        variant: def(51),
        variant_index: VariantIdx { index: 0 },
        typ_is_record: true,
        variant_is_record: true,
        typ_is_struct: true,
    }
}

fn adts() -> Vec<AdtDef> {
    vec![AdtDef { did: def(50), is_box: false, variants: vec![variant_info()] }]
}

fn decl(ty: Ty, lo: u32) -> HostLocalDecl {
    HostLocalDecl {
        mutability: Mutability::Not,
        local_info: ClearCrossCrate::Clear,
        internal: false,
        ty,
        user_ty: None,
        source_info: info(lo),
    }
}

fn struct_ty() -> Ty {
    Ty::Adt { def_id: def(50), args: TyList::Nil }
}

/// _0: bool, _1: bool, _2: u8, _3: the struct
fn locals() -> Vec<HostLocalDecl> {
    vec![
        decl(Ty::Bool, 100),
        decl(Ty::Bool, 101),
        decl(Ty::Int(IntTy::U8), 102),
        decl(struct_ty(), 103),
    ]
}

fn state() -> State {
    State::new(Options::default(), adts())
}

fn whole(index: u32) -> HostPlace {
    HostPlace { local: local(index), projection: vec![] }
}

fn exported_whole(index: u32, ty: Ty) -> Place {
    Place { ty, kind: PlaceKind::Local(local(index)) }
}

fn field_place() -> HostPlace {
    HostPlace {
        local: local(3),
        projection: vec![HostProjectionElem::Field(FieldIdx { index: 1 }, Ty::Char)],
    }
}

fn exported_field_place() -> Place {
    Place {
        ty: Ty::Char,
        kind: PlaceKind::Projection {
            place: Box::new(exported_whole(3, struct_ty())),
            kind: ProjectionElem::Field(ProjectionElemFieldKind::Adt {
                typ: def(50),
                variant_info: variant_info(),
                index: FieldIdx { index: 1 },
            }),
        },
    }
}

fn constant(value: u128, ty: Ty, lo: u32) -> HostConstant {
    HostConstant {
        span: host_span(lo),
        user_ty: None,
        ty,
        kind: HostConstantKind::Value(LitKind::Int(value)),
    }
}

fn exported_constant(value: u128, ty: Ty, lo: u32) -> Constant {
    Constant {
        span: span(lo),
        user_ty: None,
        literal: ConstantExpr {
            ty,
            span: span(lo),
            contents: ConstantExprKind::Literal(LitKind::Int(value)),
        },
    }
}

fn fn_item(index: u32, lo: u32) -> HostConstant {
    HostConstant {
        span: host_span(lo),
        user_ty: None,
        ty: Ty::FnDef { def_id: def(index), args: TyList::from_vec(vec![Ty::Bool]) },
        kind: HostConstantKind::Item(def(index)),
    }
}

#[test]
fn places_take_the_declared_type_of_their_local() {
    let mut s = state();
    assert_eq!(
        translate_place(&mut s, &locals(), &whole(2)),
        Ok(exported_whole(2, Ty::Int(IntTy::U8)))
    );
    assert_eq!(s.base.exported_def_ids.len(), 0);
    assert_eq!(s.base.exported_spans.len(), 0);
}

#[test]
fn places_of_unknown_locals_are_fatal() {
    let mut s = state();
    assert_eq!(translate_place(&mut s, &locals(), &whole(4)), Err(Fatal::UnknownLocal(local(4))));
    assert_eq!(translate_place(&mut s, &vec![], &whole(0)), Err(Fatal::UnknownLocal(local(0))));
}

#[test]
fn field_places_record_type_and_variant() {
    let mut s = state();
    assert_eq!(translate_place(&mut s, &locals(), &field_place()), Ok(exported_field_place()));
    assert_eq!(s.base.exported_def_ids.items, vec![def(50), def(51)]);
}

#[test]
fn constants_record_their_span() {
    let mut s = state();
    assert_eq!(
        translate_constant(&mut s, &constant(2, Ty::Int(IntTy::U8), 7)),
        exported_constant(2, Ty::Int(IntTy::U8), 7)
    );
    assert_eq!(s.base.exported_spans.items, vec![host_span(7)]);
    assert_eq!(s.base.exported_def_ids.len(), 0);
}

#[test]
fn named_constants_record_their_definition() {
    let mut s = state();
    let got = translate_constant(&mut s, &fn_item(9, 7));
    assert_eq!(got.literal.contents, ConstantExprKind::GlobalName(def(9)));
    assert_eq!(s.base.exported_def_ids.items, vec![def(9)]);
    let unevaluated = HostConstant {
        span: host_span(8),
        user_ty: None,
        ty: Ty::Bool,
        kind: HostConstantKind::Unevaluated(def(10)),
    };
    let got = translate_constant(&mut s, &unevaluated);
    assert_eq!(got.literal.contents, ConstantExprKind::GlobalName(def(10)));
    assert_eq!(s.base.exported_def_ids.items, vec![def(9), def(10)]);
}

#[test]
fn operands() {
    let mut s = state();
    assert_eq!(
        translate_operand(&mut s, &locals(), &HostOperand::Copy(whole(1))),
        Ok(Operand::Copy(exported_whole(1, Ty::Bool)))
    );
    assert_eq!(
        translate_operand(&mut s, &locals(), &HostOperand::Move(field_place())),
        Ok(Operand::Move(exported_field_place()))
    );
    assert_eq!(
        translate_operand(&mut s, &locals(), &HostOperand::Constant(constant(1, Ty::Bool, 3))),
        Ok(Operand::Constant(exported_constant(1, Ty::Bool, 3)))
    );
    assert_eq!(
        translate_operand(&mut s, &locals(), &HostOperand::Copy(whole(9))),
        Err(Fatal::UnknownLocal(local(9)))
    );
}

#[test]
fn operand_types() {
    assert_eq!(Operand::Copy(exported_whole(1, Ty::Bool)).ty(), &Ty::Bool);
    assert_eq!(Operand::Move(exported_field_place()).ty(), &Ty::Char);
    assert_eq!(
        Operand::Constant(exported_constant(1, Ty::Int(IntTy::I64), 3)).ty(),
        &Ty::Int(IntTy::I64)
    );
}

#[test]
fn operand_lists_stop_at_the_first_failure() {
    let mut s = state();
    let ops = vec![
        HostOperand::Copy(whole(1)),
        HostOperand::Copy(HostPlace { local: local(0), projection: vec![HostProjectionElem::Deref] }),
        HostOperand::Copy(whole(9)),
    ];
    assert_eq!(translate_operands(&mut s, &locals(), &ops), Err(Fatal::PlaceDerefNotRefNorBox(Ty::Bool)));
    let ops = vec![HostOperand::Copy(whole(1)), HostOperand::Move(whole(2))];
    assert_eq!(
        translate_operands(&mut s, &locals(), &ops),
        Ok(vec![
            Operand::Copy(exported_whole(1, Ty::Bool)),
            Operand::Move(exported_whole(2, Ty::Int(IntTy::U8)))
        ])
    );
    assert_eq!(translate_operands(&mut s, &locals(), &vec![]), Ok(vec![]));
}

#[test]
fn called_function_is_read_from_the_type_of_the_constant() {
    assert_eq!(
        get_function_from_operand(&HostOperand::Constant(fn_item(9, 1))),
        Ok((def(9), TyList::from_vec(vec![Ty::Bool])))
    );
    let mut value = fn_item(9, 1);
    value.kind = HostConstantKind::Value(LitKind::Bool(true));
    assert_eq!(
        get_function_from_operand(&HostOperand::Constant(value)),
        Ok((def(9), TyList::from_vec(vec![Ty::Bool])))
    );
}

#[test]
fn calls_of_other_operands_are_fatal() {
    assert_eq!(
        get_function_from_operand(&HostOperand::Constant(constant(1, Ty::Bool, 1))),
        Err(Fatal::CalleeNotFunction(Ty::Bool))
    );
    let mut unevaluated = fn_item(9, 1);
    unevaluated.kind = HostConstantKind::Unevaluated(def(9));
    assert_eq!(
        get_function_from_operand(&HostOperand::Constant(unevaluated)),
        Err(Fatal::NotYetTranslated(HostKind::UnevaluatedConstant))
    );
    assert_eq!(
        get_function_from_operand(&HostOperand::Copy(whole(1))),
        Err(Fatal::NotYetTranslated(HostKind::IndirectCall))
    );
    assert_eq!(
        get_function_from_operand(&HostOperand::Move(whole(1))),
        Err(Fatal::NotYetTranslated(HostKind::IndirectCall))
    );
}

#[test]
fn rvalues() {
    let mut s = state();
    let l = locals();
    let copy_first = || HostOperand::Copy(whole(1));
    let first = || Operand::Copy(exported_whole(1, Ty::Bool));
    let second = || exported_whole(2, Ty::Int(IntTy::U8));
    assert_eq!(translate_rvalue(&mut s, &l, &HostRvalue::Use(copy_first())), Ok(Rvalue::Use(first())));
    assert_eq!(
        translate_rvalue(&mut s, &l, &HostRvalue::Ref(BorrowKind::Mut, whole(2))),
        Ok(Rvalue::Ref(BorrowKind::Mut, second()))
    );
    assert_eq!(
        translate_rvalue(&mut s, &l, &HostRvalue::AddressOf(Mutability::Mut, whole(2))),
        Ok(Rvalue::AddressOf(Mutability::Mut, second()))
    );
    assert_eq!(translate_rvalue(&mut s, &l, &HostRvalue::Len(whole(2))), Ok(Rvalue::Len(second())));
    assert_eq!(
        translate_rvalue(&mut s, &l, &HostRvalue::Discriminant(whole(2))),
        Ok(Rvalue::Discriminant(second()))
    );
    assert_eq!(
        translate_rvalue(&mut s, &l, &HostRvalue::CopyForDeref(whole(2))),
        Ok(Rvalue::CopyForDeref(second()))
    );
    assert_eq!(
        translate_rvalue(&mut s, &l, &HostRvalue::Cast(CastKind::IntToInt, copy_first(), Ty::Char)),
        Ok(Rvalue::Cast(CastKind::IntToInt, first(), Ty::Char))
    );
    assert_eq!(
        translate_rvalue(&mut s, &l, &HostRvalue::UnaryOp(UnOp::Not, copy_first())),
        Ok(Rvalue::UnaryOp(UnOp::Not, first()))
    );
    assert_eq!(
        translate_rvalue(
            &mut s,
            &l,
            &HostRvalue::BinaryOp(BinOp::Add, copy_first(), HostOperand::Move(whole(2)))
        ),
        Ok(Rvalue::BinaryOp(BinOp::Add, (first(), Operand::Move(second()))))
    );
    assert_eq!(
        translate_rvalue(
            &mut s,
            &l,
            &HostRvalue::CheckedBinaryOp(BinOp::Mul, HostOperand::Move(whole(2)), copy_first())
        ),
        Ok(Rvalue::CheckedBinaryOp(BinOp::Mul, (Operand::Move(second()), first())))
    );
    assert_eq!(s.base.exported_def_ids.len(), 0);
    assert_eq!(
        translate_rvalue(&mut s, &l, &HostRvalue::ThreadLocalRef(def(3))),
        Ok(Rvalue::ThreadLocalRef(def(3)))
    );
    assert_eq!(s.base.exported_def_ids.items, vec![def(3)]);
}

#[test]
fn rvalues_with_types_and_counts() {
    let mut s = state();
    let l = locals();
    assert_eq!(
        translate_rvalue(
            &mut s,
            &l,
            &HostRvalue::Repeat(HostOperand::Copy(whole(1)), constant(4, Ty::Int(IntTy::Usize), 9))
        ),
        Ok(Rvalue::Repeat(
            Operand::Copy(exported_whole(1, Ty::Bool)),
            exported_constant(4, Ty::Int(IntTy::Usize), 9).literal
        ))
    );
    assert_eq!(s.base.exported_spans.items, vec![host_span(9)]);
    assert_eq!(
        translate_rvalue(&mut s, &l, &HostRvalue::NullaryOp(NullOp::SizeOf, Ty::Char)),
        Ok(Rvalue::NullaryOp(NullOp::SizeOf, Ty::Char))
    );
    assert_eq!(
        translate_rvalue(&mut s, &l, &HostRvalue::NullaryOp(NullOp::AlignOf, Ty::Char)),
        Ok(Rvalue::NullaryOp(NullOp::AlignOf, Ty::Char))
    );
    let fields = || NullOp::OffsetOf(vec![FieldIdx { index: 1 }, FieldIdx { index: 0 }]);
    assert_eq!(
        translate_rvalue(&mut s, &l, &HostRvalue::NullaryOp(fields(), struct_ty())),
        Ok(Rvalue::NullaryOp(fields(), struct_ty()))
    );
    assert_eq!(
        translate_rvalue(
            &mut s,
            &l,
            &HostRvalue::ShallowInitBox(HostOperand::Move(whole(2)), Ty::Bool)
        ),
        Ok(Rvalue::ShallowInitBox(Operand::Move(exported_whole(2, Ty::Int(IntTy::U8))), Ty::Bool))
    );
    assert_eq!(
        translate_rvalue(
            &mut s,
            &l,
            &HostRvalue::Repeat(HostOperand::Copy(whole(9)), constant(4, Ty::Bool, 9))
        ),
        Err(Fatal::UnknownLocal(local(9)))
    );
}

#[test]
fn yield_terminator() {
    let mut s = state();
    let l = locals();
    let host = |value, resume_arg| HostTerminator {
        source_info: info(1),
        kind: HostTerminatorKind::Yield {
            value,
            resume: block(3),
            resume_arg,
            drop: Some(block(4)),
        },
    };
    assert_eq!(
        translate_terminator(&mut s, &l, &host(HostOperand::Copy(whole(1)), whole(2))).map(|t| t.kind),
        Ok(TerminatorKind::Yield {
            value: Operand::Copy(exported_whole(1, Ty::Bool)),
            resume: block(3),
            resume_arg: exported_whole(2, Ty::Int(IntTy::U8)),
            drop: Some(block(4)),
        })
    );
    assert_eq!(
        translate_terminator(&mut s, &l, &host(HostOperand::Copy(whole(1)), whole(9))),
        Err(Fatal::UnknownLocal(local(9)))
    );
    let deref = HostPlace { local: local(1), projection: vec![HostProjectionElem::Deref] };
    assert_eq!(
        translate_terminator(&mut s, &l, &host(HostOperand::Copy(deref), whole(9))),
        Err(Fatal::PlaceDerefNotRefNorBox(Ty::Bool))
    );
}

#[test]
fn aggregates_record_their_definition() {
    let mut s = state();
    let kind = || {
        AggregateKind::Adt(def(50), VariantIdx { index: 0 }, AdtKind::Struct, TyList::Nil, None, None)
    };
    assert_eq!(
        translate_rvalue(
            &mut s,
            &locals(),
            &HostRvalue::Aggregate(kind(), vec![HostOperand::Copy(whole(1))])
        ),
        Ok(Rvalue::Aggregate(kind(), vec![Operand::Copy(exported_whole(1, Ty::Bool))]))
    );
    assert_eq!(s.base.exported_def_ids.items, vec![def(50)]);
    assert_eq!(
        translate_rvalue(&mut s, &locals(), &HostRvalue::Aggregate(AggregateKind::Tuple, vec![])),
        Ok(Rvalue::Aggregate(AggregateKind::Tuple, vec![]))
    );
}

#[test]
fn rvalue_failures() {
    let mut s = state();
    let l = locals();
    let bad = || HostOperand::Copy(whole(9));
    let good = || HostOperand::Copy(whole(1));
    let deref = || HostOperand::Copy(HostPlace {
        local: local(1),
        projection: vec![HostProjectionElem::Deref],
    });
    assert_eq!(translate_rvalue(&mut s, &l, &HostRvalue::Use(bad())), Err(Fatal::UnknownLocal(local(9))));
    assert_eq!(
        translate_rvalue(&mut s, &l, &HostRvalue::BinaryOp(BinOp::Add, deref(), bad())),
        Err(Fatal::PlaceDerefNotRefNorBox(Ty::Bool))
    );
    assert_eq!(
        translate_rvalue(&mut s, &l, &HostRvalue::BinaryOp(BinOp::Add, good(), bad())),
        Err(Fatal::UnknownLocal(local(9)))
    );
    assert_eq!(
        translate_rvalue(&mut s, &l, &HostRvalue::Aggregate(AggregateKind::Tuple, vec![good(), bad()])),
        Err(Fatal::UnknownLocal(local(9)))
    );
    assert_eq!(
        translate_rvalue(&mut s, &l, &HostRvalue::Unsupported(HostKind::Rvalue)),
        Err(Fatal::NotYetTranslated(HostKind::Rvalue))
    );
}

#[test]
fn statements() {
    let mut s = state();
    let l = locals();
    let assign = HostStatement {
        source_info: info(10),
        kind: HostStatementKind::Assign(
            whole(0),
            HostRvalue::Use(HostOperand::Constant(constant(1, Ty::Bool, 11))),
        ),
    };
    assert_eq!(
        translate_statement(&mut s, &l, &assign),
        Ok(Statement {
            source_info: exported_info(10),
            kind: Box::new(StatementKind::Assign((
                exported_whole(0, Ty::Bool),
                Rvalue::Use(Operand::Constant(exported_constant(1, Ty::Bool, 11)))
            ))),
        })
    );
    assert_eq!(s.base.exported_spans.items, vec![host_span(10), host_span(11)]);
    let simple = |kind| HostStatement { source_info: info(10), kind };
    let kind_of = |s: &mut State, kind| translate_statement(s, &l, &simple(kind)).map(|st| *st.kind);
    assert_eq!(
        kind_of(&mut s, HostStatementKind::StorageLive(local(2))),
        Ok(StatementKind::StorageLive(local(2)))
    );
    assert_eq!(
        kind_of(&mut s, HostStatementKind::StorageDead(local(2))),
        Ok(StatementKind::StorageDead(local(2)))
    );
    assert_eq!(kind_of(&mut s, HostStatementKind::Nop), Ok(StatementKind::Nop));
    assert_eq!(
        kind_of(&mut s, HostStatementKind::ConstEvalCounter),
        Ok(StatementKind::ConstEvalCounter)
    );
    assert_eq!(
        kind_of(&mut s, HostStatementKind::Deinit(whole(1))),
        Ok(StatementKind::Deinit(exported_whole(1, Ty::Bool)))
    );
    assert_eq!(
        kind_of(&mut s, HostStatementKind::PlaceMention(whole(1))),
        Ok(StatementKind::PlaceMention(exported_whole(1, Ty::Bool)))
    );
    assert_eq!(
        kind_of(
            &mut s,
            HostStatementKind::SetDiscriminant { place: whole(3), variant_index: VariantIdx { index: 2 } }
        ),
        Ok(StatementKind::SetDiscriminant {
            place: exported_whole(3, struct_ty()),
            variant_index: VariantIdx { index: 2 }
        })
    );
    assert_eq!(
        kind_of(&mut s, HostStatementKind::Unsupported(HostKind::Coverage)),
        Err(Fatal::NotYetTranslated(HostKind::Coverage))
    );
    assert_eq!(
        kind_of(&mut s, HostStatementKind::Assign(whole(9), HostRvalue::Unsupported(HostKind::Rvalue))),
        Err(Fatal::UnknownLocal(local(9)))
    );
    assert_eq!(
        kind_of(&mut s, HostStatementKind::Assign(whole(0), HostRvalue::Unsupported(HostKind::Rvalue))),
        Err(Fatal::NotYetTranslated(HostKind::Rvalue))
    );
}

fn switch_on(local_index: u32, branches: Vec<(u128, u32)>, otherwise: u32) -> HostTerminator {
    HostTerminator {
        source_info: info(20),
        kind: HostTerminatorKind::SwitchInt {
            discr: HostOperand::Copy(whole(local_index)),
            targets: RawSwitchTargets {
                branches: branches.into_iter().map(|(v, b)| (v, block(b))).collect(),
                otherwise: block(otherwise),
            },
        },
    }
}

#[test]
fn a_switch_on_a_boolean_is_lifted_to_if() {
    let mut s = state();
    assert_eq!(
        translate_terminator(&mut s, &locals(), &switch_on(1, vec![(0, 2)], 1)),
        Ok(Terminator {
            source_info: exported_info(20),
            kind: TerminatorKind::SwitchInt {
                discr: Operand::Copy(exported_whole(1, Ty::Bool)),
                targets: SwitchTargets::If { then_branch: block(1), else_branch: block(2) },
            },
        })
    );
}

#[test]
fn a_switch_on_an_integer_keeps_its_table() {
    let mut s = state();
    let mut five = [0u8; 16];
    five[0] = 5;
    assert_eq!(
        translate_terminator(&mut s, &locals(), &switch_on(2, vec![(5, 2)], 1)).map(|t| t.kind),
        Ok(TerminatorKind::SwitchInt {
            discr: Operand::Copy(exported_whole(2, Ty::Int(IntTy::U8))),
            targets: SwitchTargets::SwitchInt {
                scrutinee_type: IntTy::U8,
                branches: vec![(ScalarInt { data_le_bytes: five, int_ty: IntTy::U8 }, block(2))],
                otherwise_branch: block(1),
            },
        })
    );
}

#[test]
fn a_switch_of_a_bad_shape_is_fatal() {
    let mut s = state();
    assert_eq!(
        translate_terminator(&mut s, &locals(), &switch_on(1, vec![(1, 2)], 1)),
        Err(Fatal::MirSwitchBool { branches: 1, first: Some(1) })
    );
    assert_eq!(
        translate_terminator(&mut s, &locals(), &switch_on(3, vec![(0, 2)], 1)),
        Err(Fatal::UnexpectedSwitchTy(struct_ty()))
    );
    assert_eq!(
        translate_terminator(&mut s, &locals(), &switch_on(7, vec![(0, 2)], 1)),
        Err(Fatal::UnknownLocal(local(7)))
    );
}

fn call(func: HostOperand, args: Vec<HostOperand>, destination: HostPlace) -> HostTerminator {
    HostTerminator {
        source_info: info(30),
        kind: HostTerminatorKind::Call {
            func,
            args,
            destination,
            target: Some(block(4)),
            unwind: UnwindAction::Continue,
            from_hir_call: true,
            fn_span: host_span(31),
        },
    }
}

#[test]
fn a_call_names_its_function() {
    let mut s = state();
    let got = translate_terminator(
        &mut s,
        &locals(),
        &call(HostOperand::Constant(fn_item(9, 32)), vec![HostOperand::Copy(whole(1))], whole(0)),
    );
    assert_eq!(
        got,
        Ok(Terminator {
            source_info: exported_info(30),
            kind: TerminatorKind::Call {
                fun_id: def(9),
                substs: TyList::from_vec(vec![Ty::Bool]),
                args: vec![Operand::Copy(exported_whole(1, Ty::Bool))],
                destination: exported_whole(0, Ty::Bool),
                target: Some(block(4)),
                unwind: UnwindAction::Continue,
                from_hir_call: true,
                fn_span: span(31),
            },
        })
    );
    assert_eq!(s.base.exported_def_ids.items, vec![def(9)]);
    assert_eq!(s.base.exported_spans.items, vec![host_span(30), host_span(31)]);
}

#[test]
fn call_failures_come_in_order() {
    let mut s = state();
    let l = locals();
    let f = || HostOperand::Constant(fn_item(9, 32));
    let bad = || HostOperand::Copy(whole(9));
    let deref = || HostPlace { local: local(1), projection: vec![HostProjectionElem::Deref] };
    assert_eq!(
        translate_terminator(&mut s, &l, &call(HostOperand::Copy(whole(1)), vec![bad()], deref())),
        Err(Fatal::NotYetTranslated(HostKind::IndirectCall))
    );
    assert_eq!(
        translate_terminator(&mut s, &l, &call(f(), vec![bad()], deref())),
        Err(Fatal::UnknownLocal(local(9)))
    );
    assert_eq!(
        translate_terminator(&mut s, &l, &call(f(), vec![], deref())),
        Err(Fatal::PlaceDerefNotRefNorBox(Ty::Bool))
    );
}

#[test]
fn simple_terminators() {
    let mut s = state();
    let l = locals();
    let kind_of = |s: &mut State, kind| {
        translate_terminator(s, &l, &HostTerminator { source_info: info(1), kind }).map(|t| t.kind)
    };
    assert_eq!(
        kind_of(&mut s, HostTerminatorKind::Goto { target: block(3) }),
        Ok(TerminatorKind::Goto { target: block(3) })
    );
    assert_eq!(kind_of(&mut s, HostTerminatorKind::Return), Ok(TerminatorKind::Return));
    assert_eq!(kind_of(&mut s, HostTerminatorKind::Resume), Ok(TerminatorKind::Resume));
    assert_eq!(kind_of(&mut s, HostTerminatorKind::Terminate), Ok(TerminatorKind::Terminate));
    assert_eq!(kind_of(&mut s, HostTerminatorKind::Unreachable), Ok(TerminatorKind::Unreachable));
    assert_eq!(kind_of(&mut s, HostTerminatorKind::GeneratorDrop), Ok(TerminatorKind::GeneratorDrop));
    assert_eq!(
        kind_of(
            &mut s,
            HostTerminatorKind::FalseEdge { real_target: block(1), imaginary_target: block(2) }
        ),
        Ok(TerminatorKind::FalseEdge { real_target: block(1), imaginary_target: block(2) })
    );
    assert_eq!(
        kind_of(
            &mut s,
            HostTerminatorKind::FalseUnwind {
                real_target: block(1),
                unwind: UnwindAction::Cleanup(block(7))
            }
        ),
        Ok(TerminatorKind::FalseUnwind { real_target: block(1), unwind: UnwindAction::Cleanup(block(7)) })
    );
    assert_eq!(
        kind_of(
            &mut s,
            HostTerminatorKind::Drop {
                place: whole(3),
                target: block(1),
                unwind: UnwindAction::Terminate,
                replace: true
            }
        ),
        Ok(TerminatorKind::Drop {
            place: exported_whole(3, struct_ty()),
            target: block(1),
            unwind: UnwindAction::Terminate,
            replace: true
        })
    );
    assert_eq!(
        kind_of(&mut s, HostTerminatorKind::Unsupported(HostKind::InlineAsm)),
        Err(Fatal::NotYetTranslated(HostKind::InlineAsm))
    );
    assert_eq!(
        kind_of(&mut s, HostTerminatorKind::Unsupported(HostKind::AssertMessage)),
        Err(Fatal::NotYetTranslated(HostKind::AssertMessage))
    );
}

#[test]
fn blocks() {
    let mut s = state();
    let host = HostBasicBlockData {
        statements: vec![
            HostStatement { source_info: info(1), kind: HostStatementKind::StorageLive(local(1)) },
            HostStatement { source_info: info(2), kind: HostStatementKind::Nop },
        ],
        terminator: Some(HostTerminator { source_info: info(3), kind: HostTerminatorKind::Return }),
        is_cleanup: true,
    };
    assert_eq!(
        translate_block(&mut s, &locals(), &host),
        Ok(BasicBlockData {
            statements: vec![
                Statement {
                    source_info: exported_info(1),
                    kind: Box::new(StatementKind::StorageLive(local(1)))
                },
                Statement { source_info: exported_info(2), kind: Box::new(StatementKind::Nop) },
            ],
            terminator: Some(Terminator { source_info: exported_info(3), kind: TerminatorKind::Return }),
            is_cleanup: true,
        })
    );
    assert_eq!(s.base.exported_spans.items, vec![host_span(1), host_span(2), host_span(3)]);
    let empty = HostBasicBlockData { statements: vec![], terminator: None, is_cleanup: false };
    assert_eq!(
        translate_block(&mut s, &locals(), &empty),
        Ok(BasicBlockData { statements: vec![], terminator: None, is_cleanup: false })
    );
}

#[test]
fn a_block_fails_with_its_first_failure() {
    let mut s = state();
    let host = HostBasicBlockData {
        statements: vec![
            HostStatement { source_info: info(1), kind: HostStatementKind::Nop },
            HostStatement {
                source_info: info(2),
                kind: HostStatementKind::Unsupported(HostKind::NonDivergingIntrinsic),
            },
            HostStatement { source_info: info(3), kind: HostStatementKind::Deinit(whole(9)) },
        ],
        terminator: Some(HostTerminator {
            source_info: info(4),
            kind: HostTerminatorKind::Unsupported(HostKind::Terminator),
        }),
        is_cleanup: false,
    };
    assert_eq!(
        translate_block(&mut s, &locals(), &host),
        Err(Fatal::NotYetTranslated(HostKind::NonDivergingIntrinsic))
    );
    let host = HostBasicBlockData {
        statements: vec![],
        terminator: Some(HostTerminator {
            source_info: info(4),
            kind: HostTerminatorKind::Unsupported(HostKind::Terminator),
        }),
        is_cleanup: false,
    };
    assert_eq!(
        translate_block(&mut s, &locals(), &host),
        Err(Fatal::NotYetTranslated(HostKind::Terminator))
    );
}

fn debug_info() -> Vec<HostVarDebugInfo> {
    vec![
        HostVarDebugInfo { name: Symbol { index: 70 }, place: None },
        HostVarDebugInfo { name: Symbol { index: 71 }, place: Some(field_place()) },
        HostVarDebugInfo { name: Symbol { index: 72 }, place: Some(whole(1)) },
        HostVarDebugInfo { name: Symbol { index: 73 }, place: Some(whole(1)) },
        HostVarDebugInfo { name: Symbol { index: 74 }, place: Some(whole(3)) },
    ]
}

#[test]
fn locals_are_named_by_the_first_entry_for_the_whole_variable() {
    let infos = debug_info();
    assert_eq!(name_of_local(local(1), &infos), Some(Symbol { index: 72 }));
    assert_eq!(name_of_local(local(3), &infos), Some(Symbol { index: 74 }));
    assert_eq!(name_of_local(local(0), &infos), None);
    assert_eq!(name_of_local(local(1), &vec![]), None);
}

#[test]
fn local_declarations_get_their_names() {
    let mut s = state();
    let got = translate_local_decls(&mut s, &locals(), &debug_info()).unwrap();
    let names: Vec<Option<Symbol>> = got.iter().map(|d| d.name).collect();
    assert_eq!(
        names,
        vec![None, Some(Symbol { index: 72 }), None, Some(Symbol { index: 74 })]
    );
    assert_eq!(
        got[2],
        LocalDecl {
            mutability: Mutability::Not,
            local_info: ClearCrossCrate::Clear,
            internal: false,
            ty: Ty::Int(IntTy::U8),
            user_ty: None,
            source_info: exported_info(102),
            name: None,
        }
    );
    assert_eq!(s.base.exported_spans.len(), 4);
}

#[test]
fn local_declarations_with_unmodeled_parts_are_fatal() {
    let mut s = state();
    let mut decls = locals();
    decls[2].user_ty = Some(Untranslated { kind: HostKind::UserTypeProjections });
    decls[3].local_info = ClearCrossCrate::Kept(Untranslated { kind: HostKind::LocalInfo });
    assert_eq!(
        translate_local_decls(&mut s, &decls, &vec![]),
        Err(Fatal::NotYetTranslated(HostKind::UserTypeProjections))
    );
    decls[2].user_ty = None;
    assert_eq!(
        translate_local_decls(&mut s, &decls, &vec![]),
        Err(Fatal::NotYetTranslated(HostKind::LocalInfo))
    );
}

fn scope(lo: u32) -> HostSourceScopeData {
    HostSourceScopeData {
        span: host_span(lo),
        parent_scope: None,
        inlined: None,
        inlined_parent_scope: None,
        local_data: ClearCrossCrate::Kept(SourceScopeLocalData {
            lint_root: hax_export::ids::HirId { owner: def(1), local_id: 0 },
            safety: Safety::Safe,
        }),
    }
}

#[test]
fn scopes() {
    let mut s = state();
    let got = translate_scopes(&mut s, &vec![scope(1), scope(2)]).unwrap();
    assert_eq!(got.len(), 2);
    assert_eq!(
        got[1],
        SourceScopeData {
            span: span(2),
            parent_scope: None,
            inlined: None,
            inlined_parent_scope: None,
            local_data: scope(2).local_data,
        }
    );
    let mut inlined = scope(3);
    inlined.inlined = Some(Untranslated { kind: HostKind::InstanceDef });
    assert_eq!(
        translate_scopes(&mut s, &vec![scope(1), inlined]),
        Err(Fatal::NotYetTranslated(HostKind::InstanceDef))
    );
}

#[test]
fn debug_information() {
    assert_eq!(
        translate_var_debug_info(&debug_info()),
        vec![
            VarDebugInfo { name: Symbol { index: 70 }, local: None },
            VarDebugInfo { name: Symbol { index: 71 }, local: None },
            VarDebugInfo { name: Symbol { index: 72 }, local: Some(local(1)) },
            VarDebugInfo { name: Symbol { index: 73 }, local: Some(local(1)) },
            VarDebugInfo { name: Symbol { index: 74 }, local: Some(local(3)) },
        ]
    );
}

fn body() -> HostMirBody {
    HostMirBody {
        basic_blocks: vec![
            HostBasicBlockData {
                statements: vec![],
                terminator: Some(switch_on(1, vec![(0, 2)], 1)),
                is_cleanup: false,
            },
            HostBasicBlockData {
                statements: vec![HostStatement {
                    source_info: info(40),
                    kind: HostStatementKind::Assign(
                        whole(0),
                        HostRvalue::Use(HostOperand::Constant(HostConstant {
                            span: host_span(41),
                            user_ty: None,
                            ty: Ty::Bool,
                            kind: HostConstantKind::Value(LitKind::Bool(true)),
                        })),
                    ),
                }],
                terminator: Some(HostTerminator {
                    source_info: info(42),
                    kind: HostTerminatorKind::Return,
                }),
                is_cleanup: false,
            },
        ],
        phase: MirPhase::Built,
        pass_count: 0,
        source: MirSource { def_id: def(5), promoted: None },
        source_scopes: vec![scope(60)],
        generator: None,
        local_decls: locals(),
        arg_count: 1,
        spread_arg: None,
        var_debug_info: debug_info(),
        span: host_span(61),
        required_consts: vec![constant(3, Ty::Int(IntTy::U8), 62)],
        is_polymorphic: false,
        injection_phase: None,
        tainted_by_errors: None,
    }
}

#[test]
fn whole_body() {
    let mut s = state();
    let got: MirBody<Built> = translate_body(&mut s, &body()).unwrap();
    assert_eq!(got.basic_blocks.len(), 2);
    assert!(matches!(
        &got.basic_blocks[0].terminator,
        Some(Terminator {
            kind: TerminatorKind::SwitchInt { targets: SwitchTargets::If { .. }, .. },
            ..
        })
    ));
    assert_eq!(got.phase, MirPhase::Built);
    assert_eq!(got.pass_count, 0);
    assert_eq!(got.source, MirSource { def_id: def(5), promoted: None });
    assert_eq!(got.source_scopes.len(), 1);
    assert_eq!(got.generator, None);
    assert_eq!(got.local_decls.len(), 4);
    assert_eq!(got.local_decls[1].name, Some(Symbol { index: 72 }));
    assert_eq!(got.arg_count, 1);
    assert_eq!(got.spread_arg, None);
    assert_eq!(got.var_debug_info.len(), 5);
    assert_eq!(got.span, span(61));
    assert_eq!(got.required_consts, vec![exported_constant(3, Ty::Int(IntTy::U8), 62)]);
    assert!(!got.is_polymorphic);
    assert_eq!(got.injection_phase, None);
    assert_eq!(got.tainted_by_errors, None);
    assert_eq!(s.base.exported_def_ids.items, vec![def(5)]);
    let mut met: Vec<u32> = s.base.exported_spans.items.iter().map(|s| s.lo).collect();
    met.sort();
    assert_eq!(met, vec![20, 40, 41, 42, 60, 61, 62, 100, 101, 102, 103]);
}

#[test]
fn body_failures_come_in_order() {
    let mut s = state();
    let mut host = body();
    host.generator = Some(Untranslated { kind: HostKind::GeneratorInfo });
    host.local_decls[0].user_ty = Some(Untranslated { kind: HostKind::UserTypeProjections });
    let got: Result<MirBody<Built>, Fatal> = translate_body(&mut s, &host);
    assert_eq!(got, Err(Fatal::NotYetTranslated(HostKind::GeneratorInfo)));
    host.source_scopes[0].inlined = Some(Untranslated { kind: HostKind::InstanceDef });
    let got: Result<MirBody<Built>, Fatal> = translate_body(&mut s, &host);
    assert_eq!(got, Err(Fatal::NotYetTranslated(HostKind::InstanceDef)));
    host.basic_blocks[1].statements[0].kind = HostStatementKind::Unsupported(HostKind::Statement);
    let got: Result<MirBody<Built>, Fatal> = translate_body(&mut s, &host);
    assert_eq!(got, Err(Fatal::NotYetTranslated(HostKind::Statement)));
    let mut host = body();
    host.local_decls[0].local_info = ClearCrossCrate::Kept(Untranslated { kind: HostKind::LocalInfo });
    let got: Result<MirBody<Built>, Fatal> = translate_body(&mut s, &host);
    assert_eq!(got, Err(Fatal::NotYetTranslated(HostKind::LocalInfo)));
}
