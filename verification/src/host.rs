//! What the translation reads of the host compiler: plain values that stand
//! for the answers of its queries.

use vstd::prelude::*;
use crate::error::HostKind;
use crate::ids::{
    BasicBlock, DefId, ErrorGuaranteed, FieldIdx, HostSpan, Local, LocalDefId, Mutability,
    SourceScope, Symbol, Ty, UserTypeAnnotationIndex, VariantIdx,
};
use crate::mir::{
    AggregateKind, BorrowKind, CastKind, ClearCrossCrate, FakeReadCause, MirPhase,
    MirSource, NullOp, RetagKind, SourceScopeLocalData, UnwindAction, Untranslated,
    VariantInformations,
};
use crate::switch::RawSwitchTargets;
use crate::thir::{BinOp, LitKind, UnOp};

verus! {

/// The definition of a struct, an enum or a union.
#[derive(Debug, Clone)]
pub struct AdtDef {
    pub did: DefId,
    /// Whether this is the owning pointer type of the standard library.
    pub is_box: bool,
    /// The variants in their order; a struct or a union has one.
    pub variants: Vec<VariantInformations>,
}

impl AdtDef {
    /// Whether the variants stand in the order of their indices, each under
    /// the index that it has in the type.
    pub open spec fn variants_in_order(&self) -> bool {
        forall|k: int|
            0 <= k < self.variants@.len() ==> (#[trigger] self.variants@[k]).variant_index.index == k
    }
}

/// One element of the host's flat list of projections. Only a field access
/// and a cast say what type they lead to.
#[derive(Debug, PartialEq, Eq)]
pub enum HostProjectionElem {
    Deref,
    Field(FieldIdx, Ty),
    Index(Local),
    ConstantIndex { offset: u64, min_length: u64, from_end: bool },
    Subslice { from: u64, to: u64, from_end: bool },
    Downcast(Option<Symbol>, VariantIdx),
    OpaqueCast(Ty),
}

/// A place as the host holds it: a local variable and a flat list of
/// projections, first applied first.
#[derive(Debug, PartialEq, Eq)]
pub struct HostPlace {
    pub local: Local,
    pub projection: Vec<HostProjectionElem>,
}

/// The first definition in `adts` of the type `def_id`.
pub open spec fn lookup_adt(adts: Seq<AdtDef>, def_id: DefId) -> Option<AdtDef>
    decreases adts.len(),
{
    if adts.len() == 0 {
        None
    } else if adts[0].did == def_id {
        Some(adts[0])
    } else {
        lookup_adt(adts.skip(1), def_id)
    }
}

/// The definition that is found for a type is a definition of that type.
pub proof fn lemma_lookup_finds_type(adts: Seq<AdtDef>, def_id: DefId)
    ensures
        lookup_adt(adts, def_id) matches Some(adt) ==> adt.did == def_id,
    decreases adts.len(),
{
    if adts.len() > 0 && adts[0].did != def_id {
        lemma_lookup_finds_type(adts.skip(1), def_id);
    }
}

/// Finds the definition of the type `def_id`.
pub fn find_adt(adts: &Vec<AdtDef>, def_id: DefId) -> (found: Option<&AdtDef>)
    ensures
        found is Some <==> lookup_adt(adts@, def_id) is Some,
        found is Some ==> *found->Some_0 == lookup_adt(adts@, def_id)->Some_0,
{
    let mut i: usize = 0;
    proof {
        assert(adts@.skip(0) =~= adts@);
    }
    while i < adts.len()
        invariant
            i <= adts.len(),
            lookup_adt(adts@, def_id) == lookup_adt(adts@.skip(i as int), def_id),
        decreases adts.len() - i,
    {
        proof {
            assert(adts@.skip(i as int).skip(1) =~= adts@.skip(i + 1));
        }
        if adts[i].did == def_id {
            return Some(&adts[i]);
        }
        i = i + 1;
    }
    None
}

/// Where a statement or a terminator comes from, as the host holds it.
#[derive(Debug, Clone, Copy, PartialEq, Eq, Structural)]
pub struct HostSourceInfo {
    pub span: HostSpan,
    pub scope: SourceScope,
}

/// What the host knows of the value of a constant.
#[derive(Debug, Clone, Copy, PartialEq, Eq, Structural)]
pub enum HostConstantKind {
    /// The value is known.
    Value(LitKind),
    /// The constant is a named item that has no value at run time, such as
    /// a function.
    Item(DefId),
    /// The constant is not evaluated yet.
    Unevaluated(DefId),
}

/// A constant that a body uses, as the host holds it.
#[derive(Debug, PartialEq, Eq)]
pub struct HostConstant {
    pub span: HostSpan,
    pub user_ty: Option<UserTypeAnnotationIndex>,
    pub ty: Ty,
    pub kind: HostConstantKind,
}

/// A value that a statement or a terminator reads, as the host holds it.
#[derive(Debug, PartialEq, Eq)]
pub enum HostOperand {
    Copy(HostPlace),
    Move(HostPlace),
    Constant(HostConstant),
}

/// A value that a statement computes, as the host holds it.
#[derive(Debug, PartialEq, Eq)]
pub enum HostRvalue {
    Use(HostOperand),
    Ref(BorrowKind, HostPlace),
    ThreadLocalRef(DefId),
    AddressOf(Mutability, HostPlace),
    Len(HostPlace),
    Cast(CastKind, HostOperand, Ty),
    BinaryOp(BinOp, HostOperand, HostOperand),
    CheckedBinaryOp(BinOp, HostOperand, HostOperand),
    UnaryOp(UnOp, HostOperand),
    Discriminant(HostPlace),
    Aggregate(AggregateKind, Vec<HostOperand>),
    CopyForDeref(HostPlace),
    Repeat(HostOperand, HostConstant),
    NullaryOp(NullOp, Ty),
    ShallowInitBox(HostOperand, Ty),
    /// A value of a kind that has no exported form yet.
    Unsupported(HostKind),
}

/// What a statement does, as the host holds it.
#[derive(Debug, PartialEq, Eq)]
#[allow(inconsistent_fields)]
pub enum HostStatementKind {
    Assign(HostPlace, HostRvalue),
    FakeRead(FakeReadCause, HostPlace),
    SetDiscriminant { place: HostPlace, variant_index: VariantIdx },
    Deinit(HostPlace),
    StorageLive(Local),
    StorageDead(Local),
    Retag(RetagKind, HostPlace),
    PlaceMention(HostPlace),
    ConstEvalCounter,
    Nop,
    /// A statement of a kind that has no exported form yet.
    Unsupported(HostKind),
}

/// A statement of a basic block, as the host holds it.
#[derive(Debug, PartialEq, Eq)]
pub struct HostStatement {
    pub source_info: HostSourceInfo,
    pub kind: HostStatementKind,
}

/// How a basic block ends, as the host holds it.
#[derive(Debug, PartialEq, Eq)]
#[allow(inconsistent_fields)]
pub enum HostTerminatorKind {
    Goto { target: BasicBlock },
    SwitchInt { discr: HostOperand, targets: RawSwitchTargets },
    Resume,
    Terminate,
    Return,
    Unreachable,
    Drop { place: HostPlace, target: BasicBlock, unwind: UnwindAction, replace: bool },
    Call {
        func: HostOperand,
        args: Vec<HostOperand>,
        destination: HostPlace,
        target: Option<BasicBlock>,
        unwind: UnwindAction,
        from_hir_call: bool,
        fn_span: HostSpan,
    },
    Yield { value: HostOperand, resume: BasicBlock, resume_arg: HostPlace, drop: Option<BasicBlock> },
    GeneratorDrop,
    FalseEdge { real_target: BasicBlock, imaginary_target: BasicBlock },
    FalseUnwind { real_target: BasicBlock, unwind: UnwindAction },
    /// A terminator of a kind that has no exported form yet.
    Unsupported(HostKind),
}

/// The end of a basic block, as the host holds it.
#[derive(Debug, PartialEq, Eq)]
pub struct HostTerminator {
    pub source_info: HostSourceInfo,
    pub kind: HostTerminatorKind,
}

/// A basic block, as the host holds it.
#[derive(Debug, PartialEq, Eq)]
pub struct HostBasicBlockData {
    pub statements: Vec<HostStatement>,
    pub terminator: Option<HostTerminator>,
    pub is_cleanup: bool,
}

/// The declaration of a local variable, as the host holds it.
#[derive(Debug, PartialEq, Eq)]
pub struct HostLocalDecl {
    pub mutability: Mutability,
    pub local_info: ClearCrossCrate<Untranslated>,
    pub internal: bool,
    pub ty: Ty,
    pub user_ty: Option<Untranslated>,
    pub source_info: HostSourceInfo,
}

/// A name of the debug information of a body, as the host holds it.
#[derive(Debug, PartialEq, Eq)]
pub struct HostVarDebugInfo {
    pub name: Symbol,
    /// The place that the name stands for; none where it stands for a
    /// constant.
    pub place: Option<HostPlace>,
}

/// A lexical scope of a body, as the host holds it.
#[derive(Debug, Clone, Copy, PartialEq, Eq)]
pub struct HostSourceScopeData {
    pub span: HostSpan,
    pub parent_scope: Option<SourceScope>,
    /// The function that the scope was inlined from, where it was.
    pub inlined: Option<Untranslated>,
    pub inlined_parent_scope: Option<SourceScope>,
    pub local_data: ClearCrossCrate<SourceScopeLocalData>,
}

/// A body after lowering, as the host holds it.
#[derive(Debug, PartialEq, Eq)]
pub struct HostMirBody {
    pub basic_blocks: Vec<HostBasicBlockData>,
    pub phase: MirPhase,
    pub pass_count: usize,
    pub source: MirSource,
    pub source_scopes: Vec<HostSourceScopeData>,
    pub generator: Option<Untranslated>,
    pub local_decls: Vec<HostLocalDecl>,
    pub arg_count: usize,
    pub spread_arg: Option<Local>,
    pub var_debug_info: Vec<HostVarDebugInfo>,
    pub span: HostSpan,
    pub required_consts: Vec<HostConstant>,
    pub is_polymorphic: bool,
    pub injection_phase: Option<MirPhase>,
    pub tainted_by_errors: Option<ErrorGuaranteed>,
}

/// The lowered bodies that the host holds, at the two points of its work at
/// which they can be taken.
#[derive(Debug, PartialEq, Eq)]
pub struct HostBodies {
    /// The bodies as they are right after they were built.
    pub mir_built: Vec<HostMirBody>,
    /// The bodies as they are when constants can be evaluated in them.
    pub mir_const: Vec<HostMirBody>,
}

/// The first body of `bodies` that is the body of the definition `id`
/// itself, and not that of a constant promoted out of it.
pub open spec fn body_of_owner(bodies: Seq<HostMirBody>, id: LocalDefId) -> Option<HostMirBody>
    decreases bodies.len(),
{
    if bodies.len() == 0 {
        None
    } else if is_body_of_owner(bodies[0], id) {
        Some(bodies[0])
    } else {
        body_of_owner(bodies.skip(1), id)
    }
}

/// Whether `body` is the body of the definition `id` itself.
pub open spec fn is_body_of_owner(body: HostMirBody, id: LocalDefId) -> bool {
    body.source.def_id == (DefId { krate: 0, index: id.index }) && body.source.promoted is None
}

/// Finds the body of the definition `id` among `bodies`.
pub fn find_body(bodies: &Vec<HostMirBody>, id: LocalDefId) -> (found: Option<&HostMirBody>)
    ensures
        found is Some <==> body_of_owner(bodies@, id) is Some,
        found is Some ==> *found->Some_0 == body_of_owner(bodies@, id)->Some_0,
{
    let wanted = id.to_def_id();
    let mut i: usize = 0;
    proof {
        assert(bodies@.skip(0) =~= bodies@);
    }
    while i < bodies.len()
        invariant
            i <= bodies.len(),
            wanted == (DefId { krate: 0, index: id.index }),
            body_of_owner(bodies@, id) == body_of_owner(bodies@.skip(i as int), id),
        decreases bodies.len() - i,
    {
        proof {
            assert(bodies@.skip(i as int).skip(1) =~= bodies@.skip(i + 1));
        }
        if bodies[i].source.def_id == wanted && bodies[i].source.promoted.is_none() {
            return Some(&bodies[i]);
        }
        i = i + 1;
    }
    None
}

} // verus!
