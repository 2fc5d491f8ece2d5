//! The exported form of a body after lowering: a control-flow graph of basic
//! blocks whose nodes carry their own types and spans.

use vstd::prelude::*;
use std::marker::PhantomData;
use crate::error::HostKind;
use crate::host::{body_of_owner, find_body, HostBodies, HostMirBody};
use crate::ids::{
    BasicBlock, DefId, ErrorGuaranteed, FieldIdx, HirId, IntTy, Local, LocalDefId, Mutability,
    SourceScope, Span, Symbol, Ty, TyList, UserTypeAnnotationIndex, VariantIdx,
};
use crate::thir::{BinOp, LitKind, UnOp};

verus! {

/// What the exported tree says of one variant of a struct, enum or union.
#[derive(Debug, Clone, Copy, PartialEq, Eq, Hash, Structural)]
pub struct VariantInformations {
    /// The type that the variant belongs to.
    pub typ: DefId,
    /// The variant itself.
    pub variant: DefId,
    pub variant_index: VariantIdx,
    pub typ_is_record: bool,
    pub variant_is_record: bool,
    pub typ_is_struct: bool,
}

/// An integer constant: its bytes, lowest first, and its type.
#[derive(Debug, Clone, Copy, PartialEq, Eq)]
pub struct ScalarInt {
    /// Little-endian representation of the integer.
    pub data_le_bytes: [u8; 16],
    pub int_ty: IntTy,
}

/// The mathematical value of a [`ScalarInt`].
pub struct ScalarIntView {
    pub data_le_bytes: Seq<u8>,
    pub int_ty: IntTy,
}

impl View for ScalarInt {
    type V = ScalarIntView;

    open spec fn view(&self) -> ScalarIntView {
        ScalarIntView { data_le_bytes: self.data_le_bytes@, int_ty: self.int_ty }
    }
}

/// Where a switch goes.
#[derive(Debug, Clone, PartialEq, Eq)]
pub enum SwitchTargets {
    /// A switch on a boolean.
    If { then_branch: BasicBlock, else_branch: BasicBlock },
    /// A switch on an integer: the type of the value, the block for each
    /// tested value, and the block for every other value. A match on an enum
    /// switches on the discriminant, which is an integer.
    SwitchInt {
        scrutinee_type: IntTy,
        branches: Vec<(ScalarInt, BasicBlock)>,
        otherwise_branch: BasicBlock,
    },
}

/// The mathematical value of a [`SwitchTargets`].
pub enum SwitchTargetsView {
    If { then_branch: BasicBlock, else_branch: BasicBlock },
    SwitchInt {
        scrutinee_type: IntTy,
        branches: Seq<(ScalarIntView, BasicBlock)>,
        otherwise_branch: BasicBlock,
    },
}

impl View for SwitchTargets {
    type V = SwitchTargetsView;

    open spec fn view(&self) -> SwitchTargetsView {
        match self {
            SwitchTargets::If { then_branch, else_branch } => SwitchTargetsView::If {
                then_branch: *then_branch,
                else_branch: *else_branch,
            },
            SwitchTargets::SwitchInt {
                scrutinee_type,
                branches,
                otherwise_branch,
            } => SwitchTargetsView::SwitchInt {
                scrutinee_type: *scrutinee_type,
                branches: branches@.map_values(|b: (ScalarInt, BasicBlock)| (b.0@, b.1)),
                otherwise_branch: *otherwise_branch,
            },
        }
    }
}

/// A place: a memory location reached from a local variable by a chain of
/// projections. `ty` is the type of the location itself, that is the type
/// after the last projection of `kind` is applied.
#[derive(Debug, PartialEq, Eq)]
pub struct Place {
    pub ty: Ty,
    pub kind: PlaceKind,
}

/// A local variable, or one projection applied to a place.
#[derive(Debug, PartialEq, Eq)]
pub enum PlaceKind {
    Local(Local),
    Projection { place: Box<Place>, kind: ProjectionElem },
}

/// Which field a projection takes.
#[derive(Debug, Clone, Copy, PartialEq, Eq, Structural)]
pub enum ProjectionElemFieldKind {
    /// A component of a tuple.
    Tuple(FieldIdx),
    /// A field of a struct, an enum or a union.
    Adt { typ: DefId, variant_info: VariantInformations, index: FieldIdx },
}

/// One step from a place to a place inside it.
#[derive(Debug, Clone, Copy, PartialEq, Eq, Structural)]
pub enum ProjectionElem {
    Deref,
    Field(ProjectionElemFieldKind),
    Index(Local),
    ConstantIndex { offset: u64, min_length: u64, from_end: bool },
    Subslice { from: u64, to: u64, from_end: bool },
    Downcast(Option<Symbol>, VariantIdx),
    OpaqueCast,
}

impl Clone for Place {
    fn clone(&self) -> (copy: Self)
        ensures
            copy == *self,
        decreases self,
    {
        Place { ty: self.ty.clone(), kind: self.kind.clone() }
    }
}

impl Clone for PlaceKind {
    fn clone(&self) -> (copy: Self)
        ensures
            copy == *self,
        decreases self,
    {
        match self {
            PlaceKind::Local(local) => PlaceKind::Local(*local),
            PlaceKind::Projection { place, kind } => PlaceKind::Projection {
                place: Box::new((**place).clone()),
                kind: *kind,
            },
        }
    }
}

impl Place {
    /// The number of projections between the local variable and this place.
    pub open spec fn depth(&self) -> nat
        decreases self,
    {
        match self.kind {
            PlaceKind::Local(_) => 0,
            PlaceKind::Projection { place, .. } => 1 + place.depth(),
        }
    }

    /// The local variable that this place starts from.
    pub open spec fn root_local(&self) -> Local
        decreases self,
    {
        match self.kind {
            PlaceKind::Local(local) => local,
            PlaceKind::Projection { place, .. } => place.root_local(),
        }
    }

    /// The type of the local variable that this place starts from.
    pub open spec fn root_ty(&self) -> Ty
        decreases self,
    {
        match self.kind {
            PlaceKind::Local(_) => self.ty,
            PlaceKind::Projection { place, .. } => place.root_ty(),
        }
    }
}

/// How far the passes of the host have brought a body.
#[derive(Debug, Clone, Copy, PartialEq, Eq, Structural)]
pub enum MirPhase {
    Built,
    Analysis(AnalysisPhase),
    Runtime(RuntimePhase),
}

/// The steps of the phase in which a body is made ready to run.
#[derive(Debug, Clone, Copy, PartialEq, Eq, Structural)]
pub enum RuntimePhase {
    Initial,
    PostCleanup,
    Optimized,
}

/// The steps of the phase in which a body is analysed.
#[derive(Debug, Clone, Copy, PartialEq, Eq, Structural)]
pub enum AnalysisPhase {
    Initial,
    PostCleanup,
}

/// Where a statement or a terminator comes from.
#[derive(Debug, Clone, Copy, PartialEq, Eq, Structural)]
pub struct SourceInfo {
    pub span: Span,
    pub scope: SourceScope,
}

/// Stands in a field whose kind of host node has no exported form. No
/// translation makes one: it fails on such a node and names the kind.
#[derive(Debug, Clone, Copy, PartialEq, Eq, Structural)]
pub struct Untranslated {
    pub kind: HostKind,
}

/// A value that the host keeps for the crate it compiles and clears for
/// all others.
#[derive(Debug, Clone, Copy, PartialEq, Eq)]
pub enum ClearCrossCrate<T> {
    Clear,
    Kept(T),
}

/// The declaration of a local variable of a body.
#[derive(Debug, Clone, PartialEq, Eq)]
pub struct LocalDecl {
    pub mutability: Mutability,
    pub local_info: ClearCrossCrate<Untranslated>,
    pub internal: bool,
    pub ty: Ty,
    pub user_ty: Option<Untranslated>,
    pub source_info: SourceInfo,
    /// The name that the program gives the variable, where it has one. It is
    /// not part of the declaration: the debug information of the body has it.
    pub name: Option<Symbol>,
}

/// The bodies as they are when constants can be evaluated in them.
#[derive(Debug, Clone, Copy, PartialEq, Eq, Structural)]
pub struct Const;

/// The bodies as they are right after they were built.
#[derive(Debug, Clone, Copy, PartialEq, Eq, Structural)]
pub struct Built;

/// A point of the host's work at which lowered bodies can be taken.
pub trait IsMirKind: Clone {
    /// The body of `id` at this point, as the host holds it.
    spec fn body_at(bodies: HostBodies, id: LocalDefId) -> Option<HostMirBody>;

    /// Asks the host for the body of `id` at this point.
    fn get_mir(bodies: &HostBodies, id: LocalDefId) -> (found: Option<&HostMirBody>)
        ensures
            found is Some <==> Self::body_at(*bodies, id) is Some,
            found is Some ==> *found->Some_0 == Self::body_at(*bodies, id)->Some_0,
    ;
}

impl IsMirKind for Const {
    open spec fn body_at(bodies: HostBodies, id: LocalDefId) -> Option<HostMirBody> {
        body_of_owner(bodies.mir_const@, id)
    }

    fn get_mir(bodies: &HostBodies, id: LocalDefId) -> (found: Option<&HostMirBody>) {
        find_body(&bodies.mir_const, id)
    }
}

impl IsMirKind for Built {
    open spec fn body_at(bodies: HostBodies, id: LocalDefId) -> Option<HostMirBody> {
        body_of_owner(bodies.mir_built@, id)
    }

    fn get_mir(bodies: &HostBodies, id: LocalDefId) -> (found: Option<&HostMirBody>) {
        find_body(&bodies.mir_built, id)
    }
}

/// What a constant is.
#[derive(Debug, Clone, Copy, PartialEq, Eq, Structural)]
pub enum ConstantExprKind {
    /// A value that is known.
    Literal(LitKind),
    /// A named item: a function, or a constant that is not evaluated.
    GlobalName(DefId),
}

/// A constant expression, with its type and span.
#[derive(Debug, Clone, PartialEq, Eq)]
pub struct ConstantExpr {
    pub ty: Ty,
    pub span: Span,
    pub contents: ConstantExprKind,
}

/// A constant that a body uses.
#[derive(Debug, Clone, PartialEq, Eq)]
pub struct Constant {
    pub span: Span,
    pub user_ty: Option<UserTypeAnnotationIndex>,
    pub literal: ConstantExpr,
}

/// The definition that a body belongs to.
#[derive(Debug, Clone, Copy, PartialEq, Eq, Structural)]
pub struct MirSource {
    pub def_id: DefId,
    /// The number of the promoted constant, where the body is one.
    pub promoted: Option<u32>,
}

/// The name of a local variable in the debug information.
#[derive(Debug, Clone, Copy, PartialEq, Eq, Structural)]
pub struct VarDebugInfo {
    pub name: Symbol,
    /// The variable, where the name stands for a whole local variable.
    pub local: Option<Local>,
}

/// A body after lowering: a control-flow graph. `KIND` says at which point
/// of the host's work the body was taken.
#[derive(Debug, PartialEq, Eq)]
pub struct MirBody<KIND> {
    pub basic_blocks: Vec<BasicBlockData>,
    pub phase: MirPhase,
    pub pass_count: usize,
    pub source: MirSource,
    pub source_scopes: Vec<SourceScopeData>,
    pub generator: Option<Untranslated>,
    pub local_decls: Vec<LocalDecl>,
    pub arg_count: usize,
    pub spread_arg: Option<Local>,
    pub var_debug_info: Vec<VarDebugInfo>,
    pub span: Span,
    pub required_consts: Vec<Constant>,
    pub is_polymorphic: bool,
    pub injection_phase: Option<MirPhase>,
    pub tainted_by_errors: Option<ErrorGuaranteed>,
    pub _kind: PhantomData<KIND>,
}

/// A lexical scope of a body.
#[derive(Debug, PartialEq, Eq)]
pub struct SourceScopeData {
    pub span: Span,
    pub parent_scope: Option<SourceScope>,
    pub inlined: Option<(Instance, Span)>,
    pub inlined_parent_scope: Option<SourceScope>,
    pub local_data: ClearCrossCrate<SourceScopeLocalData>,
}

/// A function with its type arguments filled in.
#[derive(Debug, Clone, PartialEq, Eq)]
pub struct Instance {
    pub def: Untranslated,
    pub substs: TyList,
}

/// What is known of a scope in the crate that is compiled.
#[derive(Debug, Clone, Copy, PartialEq, Eq, Structural)]
pub struct SourceScopeLocalData {
    pub lint_root: HirId,
    pub safety: Safety,
}

/// Whether a scope allows unsafe operations, and why.
#[derive(Debug, Clone, Copy, PartialEq, Eq, Structural)]
pub enum Safety {
    Safe,
    BuiltinUnsafe,
    FnUnsafe,
    ExplicitUnsafe(HirId),
}

/// A value that a statement or a terminator reads.
#[derive(Debug, Clone, PartialEq, Eq)]
pub enum Operand {
    Copy(Place),
    Move(Place),
    Constant(Constant),
}

impl Operand {
    /// The type of the value.
    pub open spec fn spec_ty(&self) -> Ty {
        match self {
            Operand::Copy(p) => p.ty,
            Operand::Move(p) => p.ty,
            Operand::Constant(c) => c.literal.ty,
        }
    }

    /// The type of the value: that of the place it is read from, or that of
    /// the constant.
    pub fn ty(&self) -> (ty: &Ty)
        ensures
            *ty == self.spec_ty(),
    {
        match self {
            Operand::Copy(p) => &p.ty,
            Operand::Move(p) => &p.ty,
            Operand::Constant(c) => &c.literal.ty,
        }
    }
}

/// The end of a basic block.
#[derive(Debug, Clone, PartialEq, Eq)]
pub struct Terminator {
    pub source_info: SourceInfo,
    pub kind: TerminatorKind,
}

/// What happens when a function panics while it is called.
#[derive(Debug, Clone, Copy, PartialEq, Eq, Structural)]
pub enum UnwindAction {
    Continue,
    Unreachable,
    Terminate,
    Cleanup(BasicBlock),
}

/// How a basic block ends.
#[derive(Debug, Clone, PartialEq, Eq)]
#[allow(inconsistent_fields)]
pub enum TerminatorKind {
    Goto { target: BasicBlock },
    SwitchInt { discr: Operand, targets: SwitchTargets },
    Resume,
    Terminate,
    Return,
    Unreachable,
    Drop { place: Place, target: BasicBlock, unwind: UnwindAction, replace: bool },
    /// A call of the function `fun_id` with the type arguments `substs`.
    Call {
        fun_id: DefId,
        substs: TyList,
        args: Vec<Operand>,
        destination: Place,
        target: Option<BasicBlock>,
        unwind: UnwindAction,
        from_hir_call: bool,
        fn_span: Span,
    },
    Assert {
        cond: Operand,
        expected: bool,
        msg: Untranslated,
        target: BasicBlock,
        unwind: UnwindAction,
    },
    Yield { value: Operand, resume: BasicBlock, resume_arg: Place, drop: Option<BasicBlock> },
    GeneratorDrop,
    FalseEdge { real_target: BasicBlock, imaginary_target: BasicBlock },
    FalseUnwind { real_target: BasicBlock, unwind: UnwindAction },
    InlineAsm {
        template: Vec<Untranslated>,
        operands: Vec<Untranslated>,
        options: Untranslated,
        line_spans: Vec<Span>,
        destination: Option<BasicBlock>,
        unwind: UnwindAction,
    },
}

/// A statement of a basic block.
#[derive(Debug, PartialEq, Eq)]
pub struct Statement {
    pub source_info: SourceInfo,
    pub kind: Box<StatementKind>,
}

/// Why a place is read without its value being used.
#[derive(Debug, Clone, Copy, PartialEq, Eq, Structural)]
pub enum FakeReadCause {
    ForMatchGuard,
    ForMatchedPlace,
    ForGuardBinding,
    ForLet,
    ForIndex,
}

/// Which references are tagged anew.
#[derive(Debug, Clone, Copy, PartialEq, Eq, Structural)]
pub enum RetagKind {
    FnEntry,
    TwoPhase,
    Raw,
    Default,
}

/// How a type annotation relates to the type of the place.
#[derive(Debug, Clone, Copy, PartialEq, Eq, Structural)]
pub enum Variance {
    Covariant,
    Invariant,
    Contravariant,
    Bivariant,
}

/// What a statement does.
#[derive(Debug, PartialEq, Eq)]
#[allow(inconsistent_fields)]
pub enum StatementKind {
    Assign((Place, Rvalue)),
    FakeRead((FakeReadCause, Place)),
    SetDiscriminant { place: Place, variant_index: VariantIdx },
    Deinit(Place),
    StorageLive(Local),
    StorageDead(Local),
    Retag(RetagKind, Place),
    PlaceMention(Place),
    AscribeUserType((Place, Untranslated), Variance),
    Coverage(Untranslated),
    Intrinsic(Untranslated),
    ConstEvalCounter,
    Nop,
}

/// Whether an aggregate is a struct, a union or an enum.
#[derive(Debug, Clone, Copy, PartialEq, Eq, Structural)]
pub enum AdtKind {
    Struct,
    Union,
    Enum,
}

/// Whether a generator may be moved.
#[derive(Debug, Clone, Copy, PartialEq, Eq, Structural)]
pub enum Movability {
    Static,
    Movable,
}

/// What kind of value an aggregate builds.
#[derive(Debug, Clone, PartialEq, Eq)]
pub enum AggregateKind {
    Array(Ty),
    Tuple,
    Adt(DefId, VariantIdx, AdtKind, TyList, Option<UserTypeAnnotationIndex>, Option<FieldIdx>),
    Closure(DefId, TyList),
    Generator(DefId, TyList, Movability),
}

/// A conversion between pointer types.
#[derive(Debug, Clone, Copy, PartialEq, Eq, Structural)]
pub enum PointerCast {
    ReifyFnPointer,
    UnsafeFnPointer,
    ClosureFnPointer,
    MutToConstPointer,
    ArrayToPointer,
    Unsize,
}

/// A kind of cast.
#[derive(Debug, Clone, Copy, PartialEq, Eq, Structural)]
pub enum CastKind {
    PointerExposeAddress,
    PointerFromExposedAddress,
    Pointer(PointerCast),
    DynStar,
    IntToInt,
    FloatToInt,
    FloatToFloat,
    IntToFloat,
    PtrToPtr,
    FnPtrToPtr,
    Transmute,
}

/// An operation without operands.
#[derive(Debug, Clone, PartialEq, Eq)]
pub enum NullOp {
    SizeOf,
    AlignOf,
    OffsetOf(Vec<FieldIdx>),
}

/// How a place is borrowed.
#[derive(Debug, Clone, Copy, PartialEq, Eq, Structural)]
pub enum BorrowKind {
    Shared,
    Shallow,
    Mut,
}

/// A value that a statement computes.
#[derive(Debug, PartialEq, Eq)]
pub enum Rvalue {
    Use(Operand),
    Repeat(Operand, ConstantExpr),
    Ref(BorrowKind, Place),
    ThreadLocalRef(DefId),
    AddressOf(Mutability, Place),
    Len(Place),
    Cast(CastKind, Operand, Ty),
    BinaryOp(BinOp, (Operand, Operand)),
    CheckedBinaryOp(BinOp, (Operand, Operand)),
    NullaryOp(NullOp, Ty),
    UnaryOp(UnOp, Operand),
    Discriminant(Place),
    Aggregate(AggregateKind, Vec<Operand>),
    ShallowInitBox(Operand, Ty),
    CopyForDeref(Place),
}

/// A basic block: statements that run one after another, then a terminator.
#[derive(Debug, PartialEq, Eq)]
pub struct BasicBlockData {
    pub statements: Vec<Statement>,
    pub terminator: Option<Terminator>,
    pub is_cleanup: bool,
}

} // verus!
