//! The shape of the helper function that a contract annotation gives rise
//! to.
//!
//! A `requires`, `ensures` or `decreases` annotation on a function becomes a
//! function of its own, with the annotated function's inputs and the formula
//! as its body. What that function is called, what it takes and returns, and
//! what is declared beside it is decided here, on the shape of the signature;
//! the tokens are put together elsewhere.

use vstd::prelude::*;
use vstd::std_specs::convert::FromSpecImpl;
use vstd::string::StringExecFns;

verus! {

/// Stands for the definitions of the two quantifier functions, `forall` and
/// `exists`, that a formula may use.
#[derive(Debug, Clone, Copy, PartialEq, Eq, Structural)]
pub struct HaxQuantifiers;

/// The kinds of contract annotations on a function.
#[derive(Debug, Clone, PartialEq, Eq)]
pub enum FnDecorationKind {
    Requires,
    /// A postcondition: `ret_binder` is the pattern that binds the result.
    Ensures { ret_binder: String },
    Decreases,
}

/// What an item does for the item it is attached to.
#[derive(Debug, Clone, Copy, PartialEq, Eq, Hash, Structural)]
pub enum AssociationRole {
    Requires,
    Ensures,
    Decreases,
    Refine,
    ProcessRead,
    ProcessWrite,
    ProcessInit,
    ProtocolMessages,
}

/// The name of the annotation `kind`.
pub open spec fn decoration_name(kind: FnDecorationKind) -> Seq<char> {
    match kind {
        FnDecorationKind::Requires => "requires"@,
        FnDecorationKind::Ensures { .. } => "ensures"@,
        FnDecorationKind::Decreases => "decreases"@,
    }
}

/// The role of the helper function of an annotation of kind `kind`.
pub open spec fn role_of(kind: FnDecorationKind) -> AssociationRole {
    match kind {
        FnDecorationKind::Requires => AssociationRole::Requires,
        FnDecorationKind::Ensures { .. } => AssociationRole::Ensures,
        FnDecorationKind::Decreases => AssociationRole::Decreases,
    }
}

impl FnDecorationKind {
    /// The name of this kind of annotation, which is also the name of its
    /// helper function.
    pub fn to_string(&self) -> (name: String)
        ensures
            name@ == decoration_name(*self),
    {
        match self {
            FnDecorationKind::Requires => String::from_str("requires"),
            FnDecorationKind::Ensures { .. } => String::from_str("ensures"),
            FnDecorationKind::Decreases => String::from_str("decreases"),
        }
    }
}

impl FromSpecImpl<FnDecorationKind> for AssociationRole {
    open spec fn obeys_from_spec() -> bool {
        true
    }

    open spec fn from_spec(kind: FnDecorationKind) -> Self {
        role_of(kind)
    }
}

impl From<FnDecorationKind> for AssociationRole {
    fn from(kind: FnDecorationKind) -> (role: Self) {
        match &kind {
            FnDecorationKind::Requires => AssociationRole::Requires,
            FnDecorationKind::Ensures { .. } => AssociationRole::Ensures,
            FnDecorationKind::Decreases => AssociationRole::Decreases,
        }
    }
}

/// What kind of parameter a generic parameter is.
#[derive(Debug, Clone, Copy, PartialEq, Eq, Hash, Structural)]
pub enum GenericParamKind {
    Lifetime,
    Type,
    Const,
}

/// The shape of a list of generic parameters with its `where` clause.
#[derive(Debug, Clone, PartialEq, Eq)]
pub struct Generics {
    /// Whether the list has its opening bracket.
    pub lt_token: bool,
    /// Whether the list has its closing bracket.
    pub gt_token: bool,
    /// The kinds of the parameters, in their order.
    pub params: Vec<GenericParamKind>,
    /// The number of predicates of the `where` clause, where there is one.
    pub where_predicates: Option<usize>,
}

/// A parameter or a predicate of one of two lists: which list, and where.
#[derive(Debug, Clone, Copy, PartialEq, Eq, Hash, Structural)]
pub struct Origin {
    pub from_second: bool,
    pub index: usize,
}

/// Two lists of generic parameters made one: each parameter and predicate is
/// named by where it comes from.
#[derive(Debug, Clone, PartialEq, Eq)]
pub struct MergedGenerics {
    pub lt_token: bool,
    pub gt_token: bool,
    pub params: Vec<Origin>,
    /// The predicates of the `where` clause, where there is one.
    pub where_clause: Option<Vec<Origin>>,
}

/// The places `0..count` of the first or the second list.
pub open spec fn origins(from_second: bool, count: nat) -> Seq<Origin> {
    Seq::new(count, |i: int| Origin { from_second, index: i as usize })
}

/// The kind of the parameter at `origin` of the lists `x` and `y`.
pub open spec fn kind_at(
    x: Seq<GenericParamKind>,
    y: Seq<GenericParamKind>,
    origin: Origin,
) -> GenericParamKind {
    if origin.from_second {
        y[origin.index as int]
    } else {
        x[origin.index as int]
    }
}

/// The test for the lifetime parameters of `x` and `y`, or for the others.
pub open spec fn lifetime_is(
    x: Seq<GenericParamKind>,
    y: Seq<GenericParamKind>,
    wanted: bool,
) -> spec_fn(Origin) -> bool {
    |origin: Origin| (kind_at(x, y, origin) is Lifetime) == wanted
}

/// The parameters of `x` and `y` together: the lifetimes of `x`, those of
/// `y`, then the other parameters of `x` and those of `y`, each group in its
/// order.
pub open spec fn merged_params(x: Seq<GenericParamKind>, y: Seq<GenericParamKind>) -> Seq<Origin> {
    origins(false, x.len()).filter(lifetime_is(x, y, true)) + origins(true, y.len()).filter(
        lifetime_is(x, y, true),
    ) + origins(false, x.len()).filter(lifetime_is(x, y, false)) + origins(true, y.len()).filter(
        lifetime_is(x, y, false),
    )
}

/// The predicates of two `where` clauses together: those of the first, then
/// those of the second; no clause where there was none.
pub open spec fn merged_where(x: Option<usize>, y: Option<usize>) -> Option<Seq<Origin>> {
    match (x, y) {
        (Some(n), Some(m)) => Some(origins(false, n as nat) + origins(true, m as nat)),
        (Some(n), None) => Some(origins(false, n as nat)),
        (None, Some(m)) => Some(origins(true, m as nat)),
        (None, None) => None,
    }
}

/// The places `0..count` of one list.
fn all_of(from_second: bool, count: usize) -> (all: Vec<Origin>)
    ensures
        all@ == origins(from_second, count as nat),
{
    let mut all: Vec<Origin> = Vec::new();
    let mut i: usize = 0;
    while i < count
        invariant
            i <= count,
            all@ == origins(from_second, i as nat),
        decreases count - i,
    {
        all.push(Origin { from_second, index: i });
        assert(all@ =~= origins(from_second, (i + 1) as nat));
        i = i + 1;
    }
    all
}

/// Adds to `out` the parameters of one list that are lifetimes, or those
/// that are not.
fn push_params(
    out: &mut Vec<Origin>,
    x: &Vec<GenericParamKind>,
    y: &Vec<GenericParamKind>,
    from_second: bool,
    lifetimes: bool,
)
    ensures
        final(out)@ == old(out)@ + origins(
            from_second,
            if from_second {
                y@.len()
            } else {
                x@.len()
            },
        ).filter(lifetime_is(x@, y@, lifetimes)),
{
    let list: &Vec<GenericParamKind> = if from_second {
        y
    } else {
        x
    };
    let ghost test = lifetime_is(x@, y@, lifetimes);
    let ghost all = origins(from_second, list@.len());
    let mut i: usize = 0;
    proof {
        assert(all.take(0) =~= Seq::<Origin>::empty());
        all.take(0).lemma_filter_len(test);
        assert(out@ =~= old(out)@ + all.take(0).filter(test));
    }
    while i < list.len()
        invariant
            i <= list.len(),
            list@ == (if from_second {
                y@
            } else {
                x@
            }),
            test == lifetime_is(x@, y@, lifetimes),
            all == origins(from_second, list@.len()),
            out@ == old(out)@ + all.take(i as int).filter(test),
        decreases list.len() - i,
    {
        let origin = Origin { from_second, index: i };
        let is_lifetime: bool = match list[i] {
            GenericParamKind::Lifetime => true,
            _ => false,
        };
        proof {
            assert(all[i as int] == origin);
            assert(all.take(i + 1) =~= all.take(i as int).push(origin));
            all.take(i as int).lemma_filter_push(origin, test);
            assert(kind_at(x@, y@, origin) == list@[i as int]);
        }
        if is_lifetime == lifetimes {
            out.push(origin);
            assert(out@ =~= old(out)@ + all.take(i as int).filter(test).push(origin));
        }
        i = i + 1;
    }
    proof {
        assert(all.take(i as int) =~= all);
    }
}

/// Makes one list of generic parameters of two. Lifetimes must stand before
/// all other parameters, so the lifetimes of both lists come first.
pub fn merge_generics(x: &Generics, y: &Generics) -> (merged: MergedGenerics)
    ensures
        merged.lt_token == (x.lt_token || y.lt_token),
        merged.gt_token == (x.gt_token || y.gt_token),
        merged.params@ == merged_params(x.params@, y.params@),
        match merged_where(x.where_predicates, y.where_predicates) {
            Some(predicates) => merged.where_clause is Some && merged.where_clause->Some_0@
                == predicates,
            None => merged.where_clause is None,
        },
{
    let mut params: Vec<Origin> = Vec::new();
    push_params(&mut params, &x.params, &y.params, false, true);
    push_params(&mut params, &x.params, &y.params, true, true);
    push_params(&mut params, &x.params, &y.params, false, false);
    push_params(&mut params, &x.params, &y.params, true, false);
    proof {
        assert(params@ =~= merged_params(x.params@, y.params@));
    }
    let where_clause = match (x.where_predicates, y.where_predicates) {
        (Some(n), Some(m)) => {
            let mut predicates = all_of(false, n);
            let mut second = all_of(true, m);
            predicates.append(&mut second);
            Some(predicates)
        },
        (Some(n), None) => Some(all_of(false, n)),
        (None, Some(m)) => Some(all_of(true, m)),
        (None, None) => None,
    };
    MergedGenerics {
        lt_token: x.lt_token || y.lt_token,
        gt_token: x.gt_token || y.gt_token,
        params,
        where_clause,
    }
}

/// The shape of one input of a function.
#[derive(Debug, Clone, Copy, PartialEq, Eq, Hash, Structural)]
pub enum FnArg {
    /// `self`: whether it is taken by reference, and whether it may be
    /// written through or to.
    Receiver { reference: bool, mutable: bool },
    /// An input whose type is a reference.
    TypedReference { mutable: bool },
    /// An input of any other type.
    Typed,
}

/// Whether `input` is taken by a reference that may be written through.
pub open spec fn is_mut_reference(input: FnArg) -> bool {
    match input {
        FnArg::Receiver { reference, mutable } => reference && mutable,
        FnArg::TypedReference { mutable } => mutable,
        FnArg::Typed => false,
    }
}

/// The input `input` with its reference, if it is taken by one, made one
/// that may only be read through.
pub open spec fn without_mut(input: FnArg) -> FnArg {
    match input {
        FnArg::Receiver { reference, mutable } => FnArg::Receiver {
            reference,
            mutable: mutable && !reference,
        },
        FnArg::TypedReference { .. } => FnArg::TypedReference { mutable: false },
        FnArg::Typed => FnArg::Typed,
    }
}

/// Turns every input `x: &mut T` of a signature into `x: &T`, and says
/// whether there was any.
pub fn unmut_references_in_inputs(inputs: &mut Vec<FnArg>) -> (any_mut_ref: bool)
    ensures
        final(inputs)@ == old(inputs)@.map_values(|input: FnArg| without_mut(input)),
        any_mut_ref <==> exists|i: int|
            0 <= i < old(inputs)@.len() && is_mut_reference(#[trigger] old(inputs)@[i]),
{
    let mut any_mut_ref: bool = false;
    let mut i: usize = 0;
    let ghost before = inputs@;
    while i < inputs.len()
        invariant
            i <= inputs.len(),
            inputs@.len() == before.len(),
            forall|k: int| 0 <= k < i ==> inputs@[k] == without_mut(#[trigger] before[k]),
            forall|k: int| i <= k < before.len() ==> inputs@[k] == before[k],
            any_mut_ref <==> exists|k: int| 0 <= k < i && is_mut_reference(#[trigger] before[k]),
        decreases inputs.len() - i,
    {
        let input: FnArg = inputs[i];
        match input {
            FnArg::Receiver { reference: true, mutable } => {
                any_mut_ref = any_mut_ref || mutable;
                inputs.set(i, FnArg::Receiver { reference: true, mutable: false });
            },
            FnArg::TypedReference { mutable } => {
                any_mut_ref = any_mut_ref || mutable;
                inputs.set(i, FnArg::TypedReference { mutable: false });
            },
            _ => {},
        }
        proof {
            assert(is_mut_reference(before[i as int]) ==> any_mut_ref);
        }
        i = i + 1;
    }
    proof {
        assert(inputs@ =~= before.map_values(|input: FnArg| without_mut(input)));
    }
    any_mut_ref
}

/// What the helper function of an annotation returns.
#[derive(Debug, Clone, Copy, PartialEq, Eq, Hash, Structural)]
pub enum DecorationOutput {
    /// The formula is a condition.
    Bool,
    /// The formula is a measure of any type: it is boxed.
    BoxedAny,
}

/// The shape of the helper function of an annotation, and of what is
/// declared beside it.
#[derive(Debug, Clone, PartialEq, Eq)]
pub struct FnDecoration {
    /// The name of the helper function.
    pub name: String,
    /// The inputs of the helper function that it has from the annotated one.
    pub inputs: Vec<FnArg>,
    /// Whether one more input binds the result of the annotated function.
    pub binds_result: bool,
    pub output: DecorationOutput,
    /// Whether the two quantifier functions are declared beside it.
    pub quantifiers: Option<HaxQuantifiers>,
    /// Whether the trait that every type has is declared beside it.
    pub any_trait: bool,
    /// Whether the function that names the final value of a mutable
    /// reference is declared beside it.
    pub future: bool,
    /// What the helper function is for the annotated one.
    pub role: AssociationRole,
}

/// A postcondition on a function with an input `&mut T` is not supported.
#[derive(Debug, Clone, Copy, PartialEq, Eq, Hash, Structural)]
pub struct EnsuresOnMutInput;

/// Decides the shape of the helper function for an annotation of kind `kind`
/// on a function with the inputs `inputs`.
///
/// The helper function takes the inputs with every `&mut T` made `&T`; a
/// postcondition takes the result as one more input. A measure is boxed,
/// with the trait that every type has; the other two are conditions and may
/// use the quantifiers. A postcondition on a function that takes a `&mut T`
/// is refused.
pub fn make_fn_decoration(inputs: Vec<FnArg>, kind: &FnDecorationKind) -> (result: Result<
    FnDecoration,
    EnsuresOnMutInput,
>)
    ensures
        result is Err <==> *kind is Ensures && exists|i: int|
            0 <= i < inputs@.len() && is_mut_reference(#[trigger] inputs@[i]),
        result matches Ok(decoration) ==> {
            &&& decoration.name@ == decoration_name(*kind)
            &&& decoration.inputs@ == inputs@.map_values(|input: FnArg| without_mut(input))
            &&& decoration.binds_result == (*kind is Ensures)
            &&& decoration.output == (if *kind is Decreases {
                DecorationOutput::BoxedAny
            } else {
                DecorationOutput::Bool
            })
            &&& decoration.quantifiers is Some <==> !(*kind is Decreases)
            &&& decoration.any_trait == (*kind is Decreases)
            &&& decoration.future == (*kind is Ensures)
            &&& decoration.role == role_of(*kind)
        },
{
    let mut inputs = inputs;
    let any_mut_ref = unmut_references_in_inputs(&mut inputs);
    let is_ensures: bool = match kind {
        FnDecorationKind::Ensures { .. } => true,
        _ => false,
    };
    let is_decreases: bool = match kind {
        FnDecorationKind::Decreases => true,
        _ => false,
    };
    if any_mut_ref && is_ensures {
        return Err(EnsuresOnMutInput);
    }
    let role = match kind {
        FnDecorationKind::Requires => AssociationRole::Requires,
        FnDecorationKind::Ensures { .. } => AssociationRole::Ensures,
        FnDecorationKind::Decreases => AssociationRole::Decreases,
    };
    Ok(
        FnDecoration {
            name: kind.to_string(),
            inputs,
            binds_result: is_ensures,
            output: if is_decreases {
                DecorationOutput::BoxedAny
            } else {
                DecorationOutput::Bool
            },
            quantifiers: if is_decreases {
                None
            } else {
                Some(HaxQuantifiers)
            },
            any_trait: is_decreases,
            future: is_ensures,
            role,
        },
    )
}

} // verus!
