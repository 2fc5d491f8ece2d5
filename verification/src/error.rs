//! The inconsistencies that end an export.

use vstd::prelude::*;
use vstd::string::StringExecFns;
use crate::ids::{
    decimal, decimal_text, def_id_text, ty_text, DefId, Local, LocalDefId, Ty, VariantIdx,
};

verus! {

/// A kind of host node that the exported tree has no form for.
#[derive(Debug, Clone, Copy, PartialEq, Eq, Hash, Structural)]
pub enum HostKind {
    LocalInfo,
    UserTypeProjections,
    UserTypeProjection,
    InstanceDef,
    InlineAsm,
    AssertMessage,
    Coverage,
    NonDivergingIntrinsic,
    MirSource,
    GeneratorInfo,
    VarDebugInfo,
    UnevaluatedConstant,
    IndirectCall,
    Statement,
    Rvalue,
    Terminator,
    Expr,
    Item,
    Ty,
}

/// A shape of the host's representation that the translation cannot go on
/// from. It shows an unsupported feature or an error of the translation,
/// never an error of the program that is exported. Each holds what was met:
/// the type that did not fit, or the name that was not found.
#[derive(Debug, PartialEq, Eq)]
pub enum Fatal {
    /// A switch on a boolean does not have the one branch for `false`: it
    /// has this many branches, the first of them for this value.
    MirSwitchBool { branches: usize, first: Option<u128> },
    /// A switch on a value of this type, neither a boolean nor an integer.
    UnexpectedSwitchTy(Ty),
    /// A field is taken of a value of this type, neither a tuple nor a
    /// struct, enum or union.
    ProjectionElemFieldBadType(Ty),
    /// A value of this type is dereferenced, neither a reference nor a box.
    PlaceDerefNotRefNorBox(Ty),
    /// A value of this type is indexed, neither an array nor a slice.
    PlaceIndexNotSlice(Ty),
    /// A value of this type is indexed at a constant, neither an array nor a
    /// slice.
    PlaceConstantIndexNotSlice(Ty),
    /// A value is narrowed to this variant and no field of it is taken.
    UnexpectedDowncast(VariantIdx),
    /// A type names this struct, enum or union, which the host does not know.
    UnknownAdt(DefId),
    /// A field is taken of this type, which has no variant.
    AdtWithoutVariant(DefId),
    /// A value of this type is narrowed to this variant, which the type does
    /// not have.
    UnknownVariant(DefId, VariantIdx),
    /// A place starts from this local variable, which the body does not
    /// declare.
    UnknownLocal(Local),
    /// What is called is a constant of this type, not that of a function item.
    CalleeNotFunction(Ty),
    /// The body of this item before lowering was never extracted.
    ThirBodyNotFound(LocalDefId),
    /// The host holds no lowered body for this item.
    MirBodyNotFound(LocalDefId),
    /// A body names an expression of this index, which its table does not hold.
    UnknownExpr(u32),
    /// The expression of this index does not come after its operands in the
    /// table.
    ExprOutOfOrder(u32),
    /// A host node of a kind that is not translated yet.
    NotYetTranslated(HostKind),
}

/// The name of a kind of host node.
pub open spec fn kind_name(kind: HostKind) -> Seq<char> {
    match kind {
        HostKind::LocalInfo => "LocalInfo"@,
        HostKind::UserTypeProjections => "UserTypeProjections"@,
        HostKind::UserTypeProjection => "UserTypeProjection"@,
        HostKind::InstanceDef => "InstanceDef"@,
        HostKind::InlineAsm => "InlineAsm"@,
        HostKind::AssertMessage => "AssertMessage"@,
        HostKind::Coverage => "Coverage"@,
        HostKind::NonDivergingIntrinsic => "NonDivergingIntrinsic"@,
        HostKind::MirSource => "MirSource"@,
        HostKind::GeneratorInfo => "GeneratorInfo"@,
        HostKind::VarDebugInfo => "VarDebugInfo"@,
        HostKind::UnevaluatedConstant => "UnevaluatedConstant"@,
        HostKind::IndirectCall => "IndirectCall"@,
        HostKind::Statement => "Statement"@,
        HostKind::Rvalue => "Rvalue"@,
        HostKind::Terminator => "Terminator"@,
        HostKind::Expr => "Expr"@,
        HostKind::Item => "Item"@,
        HostKind::Ty => "Ty"@,
    }
}

/// The text of the diagnostic for `error`: the construct that was met, and
/// the type or the name that it was met with.
pub open spec fn message_of(error: Fatal) -> Seq<char> {
    match error {
        Fatal::MirSwitchBool { branches, first } => match first {
            Some(value) => "MirSwitchBool: a switch on a boolean must have one branch, for 0; it has "@
                + decimal_text(branches as nat) + ", the first for "@ + decimal_text(value as nat),
            None => "MirSwitchBool: a switch on a boolean must have one branch, for 0; it has "@
                + decimal_text(branches as nat),
        },
        Fatal::UnexpectedSwitchTy(ty) => "Unexpected switch_ty: "@ + ty_text(ty),
        Fatal::ProjectionElemFieldBadType(ty) => "ProjectionElemFieldBadType: field of "@ + ty_text(
            ty,
        ),
        Fatal::PlaceDerefNotRefNorBox(ty) => "PlaceDerefNotRefNorBox: dereference of "@ + ty_text(ty),
        Fatal::PlaceIndexNotSlice(ty) => "PlaceIndexNotSlice: index into "@ + ty_text(ty),
        Fatal::PlaceConstantIndexNotSlice(ty) => "PlaceConstantIndexNotSlice: constant index into "@
            + ty_text(ty),
        Fatal::UnexpectedDowncast(variant) =>
            "unexpected Downcast: no field access follows the narrowing to variant "@
            + decimal_text(variant.index as nat),
        Fatal::UnknownAdt(def_id) => "UnknownAdt: the host has no definition for "@ + def_id_text(
            def_id,
        ),
        Fatal::AdtWithoutVariant(def_id) => "AdtWithoutVariant: field of "@ + def_id_text(def_id),
        Fatal::UnknownVariant(def_id, variant) => "UnknownVariant: "@ + def_id_text(def_id)
            + " has no variant "@ + decimal_text(variant.index as nat),
        Fatal::UnknownLocal(local) => "UnknownLocal: the body declares no local variable "@
            + decimal_text(local.index as nat),
        Fatal::CalleeNotFunction(ty) => "CalleeNotFunction: the callee has type "@ + ty_text(ty),
        Fatal::ThirBodyNotFound(owner) => "Cannot find THIR body for item "@ + decimal_text(
            owner.index as nat,
        ) + ". Was it stolen?"@,
        Fatal::MirBodyNotFound(owner) => "Cannot find MIR body for item "@ + decimal_text(
            owner.index as nat,
        ),
        Fatal::UnknownExpr(index) => "UnknownExpr: the body has no expression "@ + decimal_text(
            index as nat,
        ),
        Fatal::ExprOutOfOrder(index) => "ExprOutOfOrder: an operand does not come before expression "@
            + decimal_text(index as nat),
        Fatal::NotYetTranslated(kind) => "not yet translated: "@ + kind_name(kind),
    }
}

impl HostKind {
    /// The name of this kind.
    pub fn name(&self) -> (name: &'static str)
        ensures
            name@ == kind_name(*self),
    {
        match self {
            HostKind::LocalInfo => "LocalInfo",
            HostKind::UserTypeProjections => "UserTypeProjections",
            HostKind::UserTypeProjection => "UserTypeProjection",
            HostKind::InstanceDef => "InstanceDef",
            HostKind::InlineAsm => "InlineAsm",
            HostKind::AssertMessage => "AssertMessage",
            HostKind::Coverage => "Coverage",
            HostKind::NonDivergingIntrinsic => "NonDivergingIntrinsic",
            HostKind::MirSource => "MirSource",
            HostKind::GeneratorInfo => "GeneratorInfo",
            HostKind::VarDebugInfo => "VarDebugInfo",
            HostKind::UnevaluatedConstant => "UnevaluatedConstant",
            HostKind::IndirectCall => "IndirectCall",
            HostKind::Statement => "Statement",
            HostKind::Rvalue => "Rvalue",
            HostKind::Terminator => "Terminator",
            HostKind::Expr => "Expr",
            HostKind::Item => "Item",
            HostKind::Ty => "Ty",
        }
    }
}

impl Fatal {
    /// The text of the diagnostic: it names the construct that was met, and
    /// the type or the name that it was met with.
    pub fn message(&self) -> (text: String)
        ensures
            text@ == message_of(*self),
    {
        match self {
            Fatal::MirSwitchBool { branches, first } => {
                let count = decimal(*branches as u128);
                let start = String::from_str(
                    "MirSwitchBool: a switch on a boolean must have one branch, for 0; it has ",
                ).concat(count.as_str());
                match first {
                    Some(value) => {
                        let shown = decimal(*value);
                        start.concat(", the first for ").concat(shown.as_str())
                    },
                    None => start,
                }
            },
            Fatal::UnexpectedSwitchTy(ty) => {
                let shown = ty.text();
                String::from_str("Unexpected switch_ty: ").concat(shown.as_str())
            },
            Fatal::ProjectionElemFieldBadType(ty) => {
                let shown = ty.text();
                String::from_str("ProjectionElemFieldBadType: field of ").concat(shown.as_str())
            },
            Fatal::PlaceDerefNotRefNorBox(ty) => {
                let shown = ty.text();
                String::from_str("PlaceDerefNotRefNorBox: dereference of ").concat(shown.as_str())
            },
            Fatal::PlaceIndexNotSlice(ty) => {
                let shown = ty.text();
                String::from_str("PlaceIndexNotSlice: index into ").concat(shown.as_str())
            },
            Fatal::PlaceConstantIndexNotSlice(ty) => {
                let shown = ty.text();
                String::from_str("PlaceConstantIndexNotSlice: constant index into ").concat(
                    shown.as_str(),
                )
            },
            Fatal::UnexpectedDowncast(variant) => {
                let shown = decimal(variant.index as u128);
                String::from_str(
                    "unexpected Downcast: no field access follows the narrowing to variant ",
                ).concat(shown.as_str())
            },
            Fatal::UnknownAdt(def_id) => {
                let shown = def_id.text();
                String::from_str("UnknownAdt: the host has no definition for ").concat(
                    shown.as_str(),
                )
            },
            Fatal::AdtWithoutVariant(def_id) => {
                let shown = def_id.text();
                String::from_str("AdtWithoutVariant: field of ").concat(shown.as_str())
            },
            Fatal::UnknownVariant(def_id, variant) => {
                let shown = def_id.text();
                let number = decimal(variant.index as u128);
                String::from_str("UnknownVariant: ").concat(shown.as_str()).concat(
                    " has no variant ",
                ).concat(number.as_str())
            },
            Fatal::UnknownLocal(local) => {
                let shown = decimal(local.index as u128);
                String::from_str("UnknownLocal: the body declares no local variable ").concat(
                    shown.as_str(),
                )
            },
            Fatal::CalleeNotFunction(ty) => {
                let shown = ty.text();
                String::from_str("CalleeNotFunction: the callee has type ").concat(shown.as_str())
            },
            Fatal::ThirBodyNotFound(owner) => {
                let shown = decimal(owner.index as u128);
                String::from_str("Cannot find THIR body for item ").concat(shown.as_str()).concat(
                    ". Was it stolen?",
                )
            },
            Fatal::MirBodyNotFound(owner) => {
                let shown = decimal(owner.index as u128);
                String::from_str("Cannot find MIR body for item ").concat(shown.as_str())
            },
            Fatal::UnknownExpr(index) => {
                let shown = decimal(*index as u128);
                String::from_str("UnknownExpr: the body has no expression ").concat(shown.as_str())
            },
            Fatal::ExprOutOfOrder(index) => {
                let shown = decimal(*index as u128);
                String::from_str("ExprOutOfOrder: an operand does not come before expression ").concat(
                    shown.as_str(),
                )
            },
            Fatal::NotYetTranslated(kind) => String::from_str("not yet translated: ").concat(
                kind.name(),
            ),
        }
    }
}

} // verus!
