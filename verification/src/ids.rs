//! Identifiers, source spans and semantic types: the plain values that every
//! node of the exported tree is made of.

use vstd::prelude::*;
use vstd::string::StringExecFns;

verus! {

/// The identifier of a definition: the crate it belongs to and its index there.
#[derive(Debug, Clone, Copy, PartialEq, Eq, Hash, Structural)]
pub struct DefId {
    pub krate: u32,
    pub index: u32,
}

/// The identifier of a definition of the crate that is being exported.
#[derive(Debug, Clone, Copy, PartialEq, Eq, Hash, Structural)]
pub struct LocalDefId {
    pub index: u32,
}

impl LocalDefId {
    /// The identifier of this definition among those of all crates: the crate
    /// that is being exported has number 0.
    pub fn to_def_id(&self) -> (id: DefId)
        ensures
            id == (DefId { krate: 0, index: self.index }),
    {
        DefId { krate: 0, index: self.index }
    }
}

/// An interned name.
#[derive(Debug, Clone, Copy, PartialEq, Eq, Hash, Structural)]
pub struct Symbol {
    pub index: u32,
}

/// A local variable of a body.
#[derive(Debug, Clone, Copy, PartialEq, Eq, Hash, Structural)]
pub struct Local {
    pub index: u32,
}

/// A basic block of a body.
#[derive(Debug, Clone, Copy, PartialEq, Eq, Hash, Structural)]
pub struct BasicBlock {
    pub index: u32,
}

/// A lexical scope of a body.
#[derive(Debug, Clone, Copy, PartialEq, Eq, Hash, Structural)]
pub struct SourceScope {
    pub index: u32,
}

/// A field of a tuple, a struct or a variant.
#[derive(Debug, Clone, Copy, PartialEq, Eq, Hash, Structural)]
pub struct FieldIdx {
    pub index: u32,
}

/// A variant of an enum.
#[derive(Debug, Clone, Copy, PartialEq, Eq, Hash, Structural)]
pub struct VariantIdx {
    pub index: u32,
}

/// A type annotation that the user wrote.
#[derive(Debug, Clone, Copy, PartialEq, Eq, Hash, Structural)]
pub struct UserTypeAnnotationIndex {
    pub index: u32,
}

/// A node of the surface syntax tree: its owner and its index there.
#[derive(Debug, Clone, Copy, PartialEq, Eq, Hash, Structural)]
pub struct HirId {
    pub owner: DefId,
    pub local_id: u32,
}

/// A region of a source file as the host compiler sees it: byte offsets and
/// the hygiene context of the tokens.
#[derive(Debug, Clone, Copy, PartialEq, Eq, Hash, Structural)]
pub struct HostSpan {
    pub file: u32,
    pub lo: u32,
    pub hi: u32,
    pub ctxt: u32,
}

/// A region of a source file in the exported tree.
#[derive(Debug, Clone, Copy, PartialEq, Eq, Hash, Structural)]
pub struct Span {
    pub file: u32,
    pub lo: u32,
    pub hi: u32,
}

impl Span {
    /// Whether `inner` lies within this span: same file, and no byte outside.
    pub open spec fn spec_contains(&self, inner: &Span) -> bool {
        self.file == inner.file && self.lo <= inner.lo && inner.hi <= self.hi
    }

    /// Whether `inner` lies within this span.
    #[verifier::when_used_as_spec(spec_contains)]
    pub fn contains(&self, inner: &Span) -> (within: bool)
        ensures
            within == self.spec_contains(inner),
    {
        self.file == inner.file && self.lo <= inner.lo && inner.hi <= self.hi
    }
}

/// The exported form of a host span: the hygiene context is dropped.
pub open spec fn exported_span(span: HostSpan) -> Span {
    Span { file: span.file, lo: span.lo, hi: span.hi }
}

/// The span that stands where the host has none to give.
pub open spec fn dummy_host_span() -> HostSpan {
    HostSpan { file: 0, lo: 0, hi: 0, ctxt: 0 }
}

impl HostSpan {
    /// The exported form of this span.
    pub fn exported(&self) -> (span: Span)
        ensures
            span == exported_span(*self),
    {
        Span { file: self.file, lo: self.lo, hi: self.hi }
    }

    /// The span that stands where the host has none to give.
    pub fn dummy() -> (span: HostSpan)
        ensures
            span == dummy_host_span(),
    {
        HostSpan { file: 0, lo: 0, hi: 0, ctxt: 0 }
    }
}

/// A token that an error was reported to the user: what holds one stands
/// for something that could not be had.
#[derive(Debug, Clone, Copy, PartialEq, Eq, Hash, Structural)]
pub struct ErrorGuaranteed;

/// Whether a variable, a reference or a pointer may be written through.
#[derive(Debug, Clone, Copy, PartialEq, Eq, Hash, Structural)]
pub enum Mutability {
    Mut,
    Not,
}

/// The integer types.
#[derive(Debug, Clone, Copy, PartialEq, Eq, Hash, Structural)]
pub enum IntTy {
    Isize,
    I8,
    I16,
    I32,
    I64,
    I128,
    Usize,
    U8,
    U16,
    U32,
    U64,
    U128,
}

impl IntTy {
    /// The number of bytes of a value of this type; pointer-sized integers are
    /// taken at their widest, 8 bytes.
    pub open spec fn spec_bytes(&self) -> usize {
        match self {
            IntTy::I8 | IntTy::U8 => 1,
            IntTy::I16 | IntTy::U16 => 2,
            IntTy::I32 | IntTy::U32 => 4,
            IntTy::I64 | IntTy::U64 | IntTy::Isize | IntTy::Usize => 8,
            IntTy::I128 | IntTy::U128 => 16,
        }
    }

    /// The number of bytes of a value of this type.
    #[verifier::when_used_as_spec(spec_bytes)]
    pub fn bytes(&self) -> (n: usize)
        ensures
            n == self.spec_bytes(),
    {
        match self {
            IntTy::I8 | IntTy::U8 => 1,
            IntTy::I16 | IntTy::U16 => 2,
            IntTy::I32 | IntTy::U32 => 4,
            IntTy::I64 | IntTy::U64 | IntTy::Isize | IntTy::Usize => 8,
            IntTy::I128 | IntTy::U128 => 16,
        }
    }
}

/// A semantic type. Every node of the exported tree carries its own, so that
/// no type has to be asked of the host again.
#[derive(Debug, PartialEq, Eq)]
pub enum Ty {
    Bool,
    Char,
    Int(IntTy),
    Str,
    Never,
    /// A reference to a value of the inner type.
    Ref(Box<Ty>, Mutability),
    /// A raw pointer to a value of the inner type.
    RawPtr(Box<Ty>, Mutability),
    Slice(Box<Ty>),
    /// An array of the inner type, with its length.
    Array(Box<Ty>, u64),
    Tuple(TyList),
    /// A struct, an enum or a union, with its type arguments.
    Adt { def_id: DefId, args: TyList },
    /// The type of one function item, with its type arguments.
    FnDef { def_id: DefId, args: TyList },
    /// A type parameter.
    Param(Symbol),
}

/// A list of types: the components of a tuple, or type arguments.
#[derive(Debug, PartialEq, Eq)]
pub enum TyList {
    Nil,
    Cons(Box<Ty>, Box<TyList>),
}

impl Clone for Ty {
    fn clone(&self) -> (copy: Self)
        ensures
            copy == *self,
        decreases self,
    {
        match self {
            Ty::Bool => Ty::Bool,
            Ty::Char => Ty::Char,
            Ty::Int(int_ty) => Ty::Int(*int_ty),
            Ty::Str => Ty::Str,
            Ty::Never => Ty::Never,
            Ty::Ref(inner, mutability) => Ty::Ref(Box::new((**inner).clone()), *mutability),
            Ty::RawPtr(inner, mutability) => Ty::RawPtr(Box::new((**inner).clone()), *mutability),
            Ty::Slice(inner) => Ty::Slice(Box::new((**inner).clone())),
            Ty::Array(inner, len) => Ty::Array(Box::new((**inner).clone()), *len),
            Ty::Tuple(items) => Ty::Tuple(items.clone()),
            Ty::Adt { def_id, args } => Ty::Adt { def_id: *def_id, args: args.clone() },
            Ty::FnDef { def_id, args } => Ty::FnDef { def_id: *def_id, args: args.clone() },
            Ty::Param(name) => Ty::Param(*name),
        }
    }
}

impl Clone for TyList {
    fn clone(&self) -> (copy: Self)
        ensures
            copy == *self,
        decreases self,
    {
        match self {
            TyList::Nil => TyList::Nil,
            TyList::Cons(head, tail) => TyList::Cons(
                Box::new((**head).clone()),
                Box::new((**tail).clone()),
            ),
        }
    }
}

impl TyList {
    /// The types of the list, first to last.
    pub open spec fn view(&self) -> Seq<Ty>
        decreases self,
    {
        match self {
            TyList::Nil => Seq::empty(),
            TyList::Cons(head, tail) => seq![**head] + tail.view(),
        }
    }

    /// The list of the types of `types`, in their order.
    pub fn from_vec(types: Vec<Ty>) -> (list: TyList)
        ensures
            list@ == types@,
    {
        let mut list = TyList::Nil;
        let mut rest = types;
        while rest.len() > 0
            invariant
                rest@ + list@ == types@,
            decreases rest.len(),
        {
            let ghost before = rest@;
            let last = rest.pop().unwrap();
            proof {
                assert(before == rest@.push(last));
                assert((seq![last] + list@) =~= seq![last] + list@);
                assert(rest@ + (seq![last] + list@) =~= before + list@);
            }
            list = TyList::Cons(Box::new(last), Box::new(list));
        }
        assert(rest@ + list@ =~= list@);
        list
    }

    /// The first type of the list, if it has one.
    pub fn first(&self) -> (head: Option<&Ty>)
        ensures
            self@.len() == 0 ==> head is None,
            self@.len() > 0 ==> head == Some(&self@[0]),
    {
        match self {
            TyList::Nil => None,
            TyList::Cons(head, _) => Some(&**head),
        }
    }
}

/// The decimal digit `d`.
pub open spec fn digit_text(d: nat) -> Seq<char> {
    if d == 0 {
        "0"@
    } else if d == 1 {
        "1"@
    } else if d == 2 {
        "2"@
    } else if d == 3 {
        "3"@
    } else if d == 4 {
        "4"@
    } else if d == 5 {
        "5"@
    } else if d == 6 {
        "6"@
    } else if d == 7 {
        "7"@
    } else if d == 8 {
        "8"@
    } else {
        "9"@
    }
}

/// The number `n` in decimal digits, the highest first, without leading zeros.
pub open spec fn decimal_text(n: nat) -> Seq<char>
    decreases n,
{
    if n < 10 {
        digit_text(n)
    } else {
        decimal_text(n / 10) + digit_text(n % 10)
    }
}

/// The text of a definition's identifier: its crate and its index there.
pub open spec fn def_id_text(id: DefId) -> Seq<char> {
    decimal_text(id.krate as nat) + ":"@ + decimal_text(id.index as nat)
}

/// The name of an integer type.
pub open spec fn int_ty_name(int_ty: IntTy) -> Seq<char> {
    match int_ty {
        IntTy::Isize => "isize"@,
        IntTy::I8 => "i8"@,
        IntTy::I16 => "i16"@,
        IntTy::I32 => "i32"@,
        IntTy::I64 => "i64"@,
        IntTy::I128 => "i128"@,
        IntTy::Usize => "usize"@,
        IntTy::U8 => "u8"@,
        IntTy::U16 => "u16"@,
        IntTy::U32 => "u32"@,
        IntTy::U64 => "u64"@,
        IntTy::U128 => "u128"@,
    }
}

/// What is written before the type that a reference refers to.
pub open spec fn reference_sign(mutability: Mutability) -> Seq<char> {
    match mutability {
        Mutability::Mut => "&mut "@,
        Mutability::Not => "&"@,
    }
}

/// What is written before the type that a raw pointer points to.
pub open spec fn pointer_sign(mutability: Mutability) -> Seq<char> {
    match mutability {
        Mutability::Mut => "*mut "@,
        Mutability::Not => "*const "@,
    }
}

/// The type `ty` as a diagnostic shows it. A definition and a type parameter
/// are shown by their numbers, and a comma follows every type of a list.
pub open spec fn ty_text(ty: Ty) -> Seq<char>
    decreases ty,
{
    match ty {
        Ty::Bool => "bool"@,
        Ty::Char => "char"@,
        Ty::Int(int_ty) => int_ty_name(int_ty),
        Ty::Str => "str"@,
        Ty::Never => "!"@,
        Ty::Ref(inner, mutability) => reference_sign(mutability) + ty_text(*inner),
        Ty::RawPtr(inner, mutability) => pointer_sign(mutability) + ty_text(*inner),
        Ty::Slice(inner) => "["@ + ty_text(*inner) + "]"@,
        Ty::Array(inner, len) => "["@ + ty_text(*inner) + "; "@ + decimal_text(len as nat) + "]"@,
        Ty::Tuple(items) => "("@ + tys_text(items) + ")"@,
        Ty::Adt { def_id, args } => "adt "@ + def_id_text(def_id) + "<"@ + tys_text(args) + ">"@,
        Ty::FnDef { def_id, args } => "fn "@ + def_id_text(def_id) + "<"@ + tys_text(args) + ">"@,
        Ty::Param(name) => "param "@ + decimal_text(name.index as nat),
    }
}

/// The types of `list` as a diagnostic shows them, a comma after each.
pub open spec fn tys_text(list: TyList) -> Seq<char>
    decreases list,
{
    match list {
        TyList::Nil => Seq::empty(),
        TyList::Cons(head, tail) => ty_text(*head) + ","@ + tys_text(*tail),
    }
}

/// Writes one decimal digit.
fn digit(d: u128) -> (text: &'static str)
    requires
        d < 10,
    ensures
        text@ == digit_text(d as nat),
{
    if d == 0 {
        "0"
    } else if d == 1 {
        "1"
    } else if d == 2 {
        "2"
    } else if d == 3 {
        "3"
    } else if d == 4 {
        "4"
    } else if d == 5 {
        "5"
    } else if d == 6 {
        "6"
    } else if d == 7 {
        "7"
    } else if d == 8 {
        "8"
    } else {
        "9"
    }
}

/// Writes `n` in decimal digits.
pub fn decimal(n: u128) -> (text: String)
    ensures
        text@ == decimal_text(n as nat),
    decreases n,
{
    if n < 10 {
        String::from_str(digit(n))
    } else {
        decimal(n / 10).concat(digit(n % 10))
    }
}

impl DefId {
    /// Writes this identifier as a diagnostic shows it.
    pub fn text(&self) -> (text: String)
        ensures
            text@ == def_id_text(*self),
    {
        let index = decimal(self.index as u128);
        decimal(self.krate as u128).concat(":").concat(index.as_str())
    }
}

impl IntTy {
    /// The name of this type.
    pub fn name(&self) -> (name: &'static str)
        ensures
            name@ == int_ty_name(*self),
    {
        match self {
            IntTy::Isize => "isize",
            IntTy::I8 => "i8",
            IntTy::I16 => "i16",
            IntTy::I32 => "i32",
            IntTy::I64 => "i64",
            IntTy::I128 => "i128",
            IntTy::Usize => "usize",
            IntTy::U8 => "u8",
            IntTy::U16 => "u16",
            IntTy::U32 => "u32",
            IntTy::U64 => "u64",
            IntTy::U128 => "u128",
        }
    }
}

impl Mutability {
    /// What is written before the type that a reference refers to.
    pub fn reference_sign(&self) -> (sign: &'static str)
        ensures
            sign@ == reference_sign(*self),
    {
        match self {
            Mutability::Mut => "&mut ",
            Mutability::Not => "&",
        }
    }

    /// What is written before the type that a raw pointer points to.
    pub fn pointer_sign(&self) -> (sign: &'static str)
        ensures
            sign@ == pointer_sign(*self),
    {
        match self {
            Mutability::Mut => "*mut ",
            Mutability::Not => "*const ",
        }
    }
}

impl Ty {
    /// Writes this type as a diagnostic shows it.
    pub fn text(&self) -> (text: String)
        ensures
            text@ == ty_text(*self),
        decreases self,
    {
        match self {
            Ty::Bool => String::from_str("bool"),
            Ty::Char => String::from_str("char"),
            Ty::Int(int_ty) => String::from_str(int_ty.name()),
            Ty::Str => String::from_str("str"),
            Ty::Never => String::from_str("!"),
            Ty::Ref(inner, mutability) => {
                let inner_text = inner.text();
                String::from_str(mutability.reference_sign()).concat(inner_text.as_str())
            },
            Ty::RawPtr(inner, mutability) => {
                let inner_text = inner.text();
                String::from_str(mutability.pointer_sign()).concat(inner_text.as_str())
            },
            Ty::Slice(inner) => {
                let inner_text = inner.text();
                String::from_str("[").concat(inner_text.as_str()).concat("]")
            },
            Ty::Array(inner, len) => {
                let inner_text = inner.text();
                let len_text = decimal(*len as u128);
                String::from_str("[").concat(inner_text.as_str()).concat("; ").concat(
                    len_text.as_str(),
                ).concat("]")
            },
            Ty::Tuple(items) => {
                let items_text = items.text();
                String::from_str("(").concat(items_text.as_str()).concat(")")
            },
            Ty::Adt { def_id, args } => {
                let id_text = def_id.text();
                let args_text = args.text();
                String::from_str("adt ").concat(id_text.as_str()).concat("<").concat(
                    args_text.as_str(),
                ).concat(">")
            },
            Ty::FnDef { def_id, args } => {
                let id_text = def_id.text();
                let args_text = args.text();
                String::from_str("fn ").concat(id_text.as_str()).concat("<").concat(
                    args_text.as_str(),
                ).concat(">")
            },
            Ty::Param(name) => {
                let number = decimal(name.index as u128);
                String::from_str("param ").concat(number.as_str())
            },
        }
    }
}

impl TyList {
    /// Writes the types of this list, a comma after each.
    pub fn text(&self) -> (text: String)
        ensures
            text@ == tys_text(*self),
        decreases self,
    {
        match self {
            TyList::Nil => String::new(),
            TyList::Cons(head, tail) => {
                let tail_text = tail.text();
                head.text().concat(",").concat(tail_text.as_str())
            },
        }
    }
}

} // verus!
