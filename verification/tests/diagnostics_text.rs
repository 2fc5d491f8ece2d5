use hax_export::error::{Fatal, HostKind};
use hax_export::ids::{
    decimal, DefId, IntTy, Local, LocalDefId, Mutability, Symbol, Ty, TyList, VariantIdx,
};

fn def(krate: u32, index: u32) -> DefId {
    DefId { krate, index }
}

fn list(types: Vec<Ty>) -> TyList {
    TyList::from_vec(types)
}

#[test]
fn every_fatal_error_names_what_was_met() {
    let all = [
        (Fatal::MirSwitchBool { branches: 2, first: Some(0) }, "MirSwitchBool"),
        (Fatal::UnexpectedSwitchTy(Ty::Char), "switch_ty"),
        (Fatal::ProjectionElemFieldBadType(Ty::Char), "ProjectionElemFieldBadType"),
        (Fatal::PlaceDerefNotRefNorBox(Ty::Char), "PlaceDerefNotRefNorBox"),
        (Fatal::PlaceIndexNotSlice(Ty::Char), "PlaceIndexNotSlice"),
        (Fatal::PlaceConstantIndexNotSlice(Ty::Char), "PlaceConstantIndexNotSlice"),
        (Fatal::UnexpectedDowncast(VariantIdx { index: 1 }), "Downcast"),
        (Fatal::UnknownAdt(def(0, 1)), "UnknownAdt"),
        (Fatal::AdtWithoutVariant(def(0, 1)), "AdtWithoutVariant"),
        (Fatal::UnknownVariant(def(0, 1), VariantIdx { index: 1 }), "UnknownVariant"),
        (Fatal::UnknownLocal(Local { index: 1 }), "UnknownLocal"),
        (Fatal::CalleeNotFunction(Ty::Char), "CalleeNotFunction"),
        (Fatal::ThirBodyNotFound(LocalDefId { index: 1 }), "THIR body"),
        (Fatal::MirBodyNotFound(LocalDefId { index: 1 }), "MIR body"),
        (Fatal::UnknownExpr(1), "UnknownExpr"),
        (Fatal::ExprOutOfOrder(1), "ExprOutOfOrder"),
    ];
    for (error, word) in all {
        let text = error.message();
        assert!(text.contains(word), "{:?}: {}", error, text);
    }
}

#[test]
fn exact_messages() {
    assert_eq!(
        Fatal::MirSwitchBool { branches: 0, first: None }.message(),
        "MirSwitchBool: a switch on a boolean must have one branch, for 0; it has 0"
    );
    assert_eq!(
        Fatal::MirSwitchBool { branches: 3, first: Some(u128::MAX) }.message(),
        "MirSwitchBool: a switch on a boolean must have one branch, for 0; it has 3, \
         the first for 340282366920938463463374607431768211455"
    );
    assert_eq!(
        Fatal::ThirBodyNotFound(LocalDefId { index: 42 }).message(),
        "Cannot find THIR body for item 42. Was it stolen?"
    );
    assert_eq!(
        Fatal::MirBodyNotFound(LocalDefId { index: 7 }).message(),
        "Cannot find MIR body for item 7"
    );
}

#[test]
fn a_message_shows_the_type_that_did_not_fit() {
    assert_eq!(Fatal::UnexpectedSwitchTy(Ty::Char).message(), "Unexpected switch_ty: char");
    assert_eq!(
        Fatal::UnexpectedSwitchTy(Ty::Slice(Box::new(Ty::Bool))).message(),
        "Unexpected switch_ty: [bool]"
    );
    assert_eq!(
        Fatal::ProjectionElemFieldBadType(Ty::Int(IntTy::U8)).message(),
        "ProjectionElemFieldBadType: field of u8"
    );
    assert_eq!(
        Fatal::PlaceDerefNotRefNorBox(Ty::Adt { def_id: def(2, 10), args: list(vec![Ty::Str]) })
            .message(),
        "PlaceDerefNotRefNorBox: dereference of adt 2:10<str,>"
    );
    assert_eq!(
        Fatal::PlaceIndexNotSlice(Ty::Tuple(list(vec![Ty::Bool, Ty::Never]))).message(),
        "PlaceIndexNotSlice: index into (bool,!,)"
    );
    assert_eq!(
        Fatal::PlaceConstantIndexNotSlice(Ty::Ref(Box::new(Ty::Str), Mutability::Not)).message(),
        "PlaceConstantIndexNotSlice: constant index into &str"
    );
    assert_eq!(
        Fatal::CalleeNotFunction(Ty::Bool).message(),
        "CalleeNotFunction: the callee has type bool"
    );
}

#[test]
fn a_message_shows_the_name_that_was_not_found() {
    assert_eq!(
        Fatal::UnexpectedDowncast(VariantIdx { index: 12 }).message(),
        "unexpected Downcast: no field access follows the narrowing to variant 12"
    );
    assert_eq!(
        Fatal::UnknownAdt(def(3, 405)).message(),
        "UnknownAdt: the host has no definition for 3:405"
    );
    assert_eq!(Fatal::AdtWithoutVariant(def(0, 30)).message(), "AdtWithoutVariant: field of 0:30");
    assert_eq!(
        Fatal::UnknownVariant(def(0, 10), VariantIdx { index: 2 }).message(),
        "UnknownVariant: 0:10 has no variant 2"
    );
    assert_eq!(
        Fatal::UnknownLocal(Local { index: 9 }).message(),
        "UnknownLocal: the body declares no local variable 9"
    );
    assert_eq!(Fatal::UnknownExpr(7).message(), "UnknownExpr: the body has no expression 7");
    assert_eq!(
        Fatal::ExprOutOfOrder(4).message(),
        "ExprOutOfOrder: an operand does not come before expression 4"
    );
}

#[test]
fn numbers_are_written_in_decimal() {
    assert_eq!(decimal(0), "0");
    assert_eq!(decimal(7), "7");
    assert_eq!(decimal(10), "10");
    assert_eq!(decimal(120), "120");
    assert_eq!(decimal(9876543210), "9876543210");
    assert_eq!(decimal(18446744073709551615), "18446744073709551615");
    assert_eq!(decimal(u128::MAX), "340282366920938463463374607431768211455");
    assert_eq!(def(4294967295, 0).text(), "4294967295:0");
}

#[test]
fn types_are_written_as_a_diagnostic_shows_them() {
    assert_eq!(Ty::Bool.text(), "bool");
    assert_eq!(Ty::Char.text(), "char");
    assert_eq!(Ty::Str.text(), "str");
    assert_eq!(Ty::Never.text(), "!");
    let names = [
        (IntTy::Isize, "isize"),
        (IntTy::I8, "i8"),
        (IntTy::I16, "i16"),
        (IntTy::I32, "i32"),
        (IntTy::I64, "i64"),
        (IntTy::I128, "i128"),
        (IntTy::Usize, "usize"),
        (IntTy::U8, "u8"),
        (IntTy::U16, "u16"),
        (IntTy::U32, "u32"),
        (IntTy::U64, "u64"),
        (IntTy::U128, "u128"),
    ];
    for (int_ty, name) in names {
        assert_eq!(int_ty.name(), name);
        assert_eq!(Ty::Int(int_ty).text(), name);
    }
    assert_eq!(Ty::Ref(Box::new(Ty::Bool), Mutability::Mut).text(), "&mut bool");
    assert_eq!(Ty::Ref(Box::new(Ty::Bool), Mutability::Not).text(), "&bool");
    assert_eq!(Ty::RawPtr(Box::new(Ty::Char), Mutability::Mut).text(), "*mut char");
    assert_eq!(Ty::RawPtr(Box::new(Ty::Char), Mutability::Not).text(), "*const char");
    assert_eq!(Ty::Slice(Box::new(Ty::Int(IntTy::U8))).text(), "[u8]");
    assert_eq!(Ty::Array(Box::new(Ty::Int(IntTy::U8)), 32).text(), "[u8; 32]");
    assert_eq!(Ty::Tuple(TyList::Nil).text(), "()");
    assert_eq!(Ty::Tuple(list(vec![Ty::Bool, Ty::Char])).text(), "(bool,char,)");
    assert_eq!(Ty::Adt { def_id: def(0, 10), args: TyList::Nil }.text(), "adt 0:10<>");
    assert_eq!(
        Ty::FnDef { def_id: def(1, 2), args: list(vec![Ty::Param(Symbol { index: 5 })]) }.text(),
        "fn 1:2<param 5,>"
    );
    let nested = Ty::Ref(
        Box::new(Ty::Array(
            Box::new(Ty::Tuple(list(vec![Ty::Adt { def_id: def(0, 3), args: list(vec![Ty::Str]) }]))),
            2,
        )),
        Mutability::Not,
    );
    assert_eq!(nested.text(), "&[(adt 0:3<str,>,); 2]");
}

#[test]
fn unmodeled_kinds_are_named() {
    let kinds = [
        (HostKind::LocalInfo, "LocalInfo"),
        (HostKind::UserTypeProjections, "UserTypeProjections"),
        (HostKind::UserTypeProjection, "UserTypeProjection"),
        (HostKind::InstanceDef, "InstanceDef"),
        (HostKind::InlineAsm, "InlineAsm"),
        (HostKind::AssertMessage, "AssertMessage"),
        (HostKind::Coverage, "Coverage"),
        (HostKind::NonDivergingIntrinsic, "NonDivergingIntrinsic"),
        (HostKind::MirSource, "MirSource"),
        (HostKind::GeneratorInfo, "GeneratorInfo"),
        (HostKind::VarDebugInfo, "VarDebugInfo"),
        (HostKind::UnevaluatedConstant, "UnevaluatedConstant"),
        (HostKind::IndirectCall, "IndirectCall"),
        (HostKind::Statement, "Statement"),
        (HostKind::Rvalue, "Rvalue"),
        (HostKind::Terminator, "Terminator"),
        (HostKind::Expr, "Expr"),
        (HostKind::Item, "Item"),
        (HostKind::Ty, "Ty"),
    ];
    for (kind, name) in kinds {
        assert_eq!(kind.name(), name);
        assert_eq!(
            Fatal::NotYetTranslated(kind).message(),
            format!("not yet translated: {}", name)
        );
    }
}
