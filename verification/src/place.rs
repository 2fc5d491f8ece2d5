//! Rebuilding a place from the host's flat list of projections.
//!
//! The host names a place by a local variable and a list of projections, and
//! leaves the type after each step to be asked for. The exported place nests
//! one projection per node and records at each node the type that the step
//! leads to. The list is walked from left to right with the current type in
//! hand. A narrowing to a variant and the field access that follows it become
//! one field access, which carries what the host says of that variant.

use vstd::prelude::*;
use crate::error::Fatal;
use crate::host::{
    find_adt, lemma_lookup_finds_type, lookup_adt, AdtDef, HostPlace, HostProjectionElem,
};
use crate::ids::{FieldIdx, Local, Symbol, Ty, VariantIdx};
use crate::mir::{
    Place, PlaceKind, ProjectionElem, ProjectionElemFieldKind, VariantInformations,
};

verus! {

/// One step of the walk: the projection of the new node, the type it leads
/// to, and how many elements of the host's list it stands for.
pub struct Step {
    pub kind: ProjectionElem,
    pub ty: Ty,
    pub taken: usize,
}

/// The variant of `adt` that a field is taken of: the one that the value was
/// narrowed to, or the first where it was not narrowed. A struct and a union
/// have one variant, so that their fields are found without a narrowing.
pub open spec fn variant_taken(adt: AdtDef, narrowed: Option<VariantIdx>) -> Result<
    VariantInformations,
    Fatal,
> {
    match narrowed {
        Some(variant) => if variant.index < adt.variants@.len() {
            Ok(adt.variants@[variant.index as int])
        } else {
            Err(Fatal::UnknownVariant(adt.did, variant))
        },
        None => if adt.variants@.len() == 0 {
            Err(Fatal::AdtWithoutVariant(adt.did))
        } else {
            Ok(adt.variants@[0])
        },
    }
}

/// The field access of the field `index` of a value of type `ty`: on a tuple
/// its component, on a struct, enum or union its field, with what the host
/// says of the variant that the field belongs to. That is the variant
/// `narrowed` where the value was narrowed to one just before, and the first
/// variant of the type otherwise.
pub open spec fn field_projection(
    adts: Seq<AdtDef>,
    ty: Ty,
    narrowed: Option<VariantIdx>,
    index: FieldIdx,
) -> Result<ProjectionElem, Fatal> {
    match ty {
        Ty::Adt { def_id, .. } => match lookup_adt(adts, def_id) {
            None => Err(Fatal::UnknownAdt(def_id)),
            Some(adt) => match variant_taken(adt, narrowed) {
                Err(e) => Err(e),
                Ok(variant_info) => Ok(
                    ProjectionElem::Field(
                        ProjectionElemFieldKind::Adt { typ: def_id, variant_info, index },
                    ),
                ),
            },
        },
        Ty::Tuple(_) => Ok(ProjectionElem::Field(ProjectionElemFieldKind::Tuple(index))),
        _ => Err(Fatal::ProjectionElemFieldBadType(ty)),
    }
}

/// The type that a value of type `ty` points to: what a reference refers to,
/// or the first type argument of a box.
pub open spec fn pointee_type(adts: Seq<AdtDef>, ty: Ty) -> Result<Ty, Fatal> {
    match ty {
        Ty::Ref(inner, _) => Ok(*inner),
        Ty::Adt { def_id, args } => match lookup_adt(adts, def_id) {
            None => Err(Fatal::UnknownAdt(def_id)),
            Some(adt) => if adt.is_box && args@.len() > 0 {
                Ok(args@[0])
            } else {
                Err(Fatal::PlaceDerefNotRefNorBox(ty))
            },
        },
        _ => Err(Fatal::PlaceDerefNotRefNorBox(ty)),
    }
}

/// The type of the elements of an array or a slice of type `ty`; nothing
/// where `ty` is neither.
pub open spec fn element_type(ty: Ty) -> Option<Ty> {
    match ty {
        Ty::Slice(inner) => Some(*inner),
        Ty::Array(inner, _) => Some(*inner),
        _ => None,
    }
}

/// The step that the head of `elems` asks for when the current type is `ty`.
pub open spec fn next_step(adts: Seq<AdtDef>, ty: Ty, elems: Seq<HostProjectionElem>) -> Result<
    Step,
    Fatal,
>
    recommends
        elems.len() > 0,
{
    match elems[0] {
        HostProjectionElem::Downcast(_, variant) => {
            if elems.len() >= 2 && elems[1] is Field {
                match field_projection(adts, ty, Some(variant), elems[1]->Field_0) {
                    Ok(kind) => Ok(Step { kind, ty: elems[1]->Field_1, taken: 2 }),
                    Err(e) => Err(e),
                }
            } else {
                Err(Fatal::UnexpectedDowncast(variant))
            }
        },
        HostProjectionElem::Deref => match pointee_type(adts, ty) {
            Ok(inner) => Ok(Step { kind: ProjectionElem::Deref, ty: inner, taken: 1 }),
            Err(e) => Err(e),
        },
        HostProjectionElem::Field(index, field_ty) => match field_projection(
            adts,
            ty,
            None,
            index,
        ) {
            Ok(kind) => Ok(Step { kind, ty: field_ty, taken: 1 }),
            Err(e) => Err(e),
        },
        HostProjectionElem::Index(local) => match element_type(ty) {
            Some(inner) => Ok(Step { kind: ProjectionElem::Index(local), ty: inner, taken: 1 }),
            None => Err(Fatal::PlaceIndexNotSlice(ty)),
        },
        HostProjectionElem::ConstantIndex { offset, min_length, from_end } => match element_type(ty) {
            Some(inner) => Ok(
                Step {
                    kind: ProjectionElem::ConstantIndex { offset, min_length, from_end },
                    ty: inner,
                    taken: 1,
                },
            ),
            None => Err(Fatal::PlaceConstantIndexNotSlice(ty)),
        },
        HostProjectionElem::Subslice { from, to, from_end } => Ok(
            Step { kind: ProjectionElem::Subslice { from, to, from_end }, ty, taken: 1 },
        ),
        HostProjectionElem::OpaqueCast(cast_ty) => Ok(
            Step { kind: ProjectionElem::OpaqueCast, ty: cast_ty, taken: 1 },
        ),
    }
}

/// The place reached from `current` by the projections `elems`.
pub open spec fn project_from(adts: Seq<AdtDef>, current: Place, elems: Seq<HostProjectionElem>)
    -> Result<Place, Fatal>
    decreases elems.len(),
{
    if elems.len() == 0 {
        Ok(current)
    } else {
        match next_step(adts, current.ty, elems) {
            Err(e) => Err(e),
            Ok(step) => project_from(
                adts,
                Place {
                    ty: step.ty,
                    kind: PlaceKind::Projection { place: Box::new(current), kind: step.kind },
                },
                elems.skip(step.taken as int),
            ),
        }
    }
}

/// The exported place for the local variable `local` of type `root_ty` under
/// the projections `elems`.
pub open spec fn place_of(
    adts: Seq<AdtDef>,
    root_ty: Ty,
    local: Local,
    elems: Seq<HostProjectionElem>,
) -> Result<Place, Fatal> {
    project_from(adts, Place { ty: root_ty, kind: PlaceKind::Local(local) }, elems)
}

/// The number of elements of `elems` that narrow to a variant.
pub open spec fn downcasts(elems: Seq<HostProjectionElem>) -> nat
    decreases elems.len(),
{
    if elems.len() == 0 {
        0
    } else if elems[0] is Downcast {
        1 + downcasts(elems.skip(1))
    } else {
        downcasts(elems.skip(1))
    }
}

/// Whether the type of `place` is the one that its last projection leads to
/// from the type of the place below, and so on down to the local variable.
/// A field access and a cast take their type from the host.
pub open spec fn types_follow(adts: Seq<AdtDef>, place: Place) -> bool
    decreases place,
{
    match place.kind {
        PlaceKind::Local(_) => true,
        PlaceKind::Projection { place: base, kind } => types_follow(adts, *base) && match kind {
            ProjectionElem::Deref => pointee_type(adts, base.ty) == Ok::<Ty, Fatal>(place.ty),
            ProjectionElem::Field(ProjectionElemFieldKind::Tuple(_)) => base.ty is Tuple,
            ProjectionElem::Field(ProjectionElemFieldKind::Adt { typ, .. }) => base.ty is Adt
                && base.ty->Adt_def_id == typ,
            ProjectionElem::Index(_) => element_type(base.ty) == Some(place.ty),
            ProjectionElem::ConstantIndex { .. } => element_type(base.ty) == Some(place.ty),
            ProjectionElem::Subslice { .. } => place.ty == base.ty,
            ProjectionElem::Downcast(_, _) => false,
            ProjectionElem::OpaqueCast => true,
        },
    }
}

/// Finds the variant of `adt` that a field is taken of.
fn variant_for(adt: &AdtDef, narrowed: Option<VariantIdx>) -> (result: Result<
    VariantInformations,
    Fatal,
>)
    ensures
        result == variant_taken(*adt, narrowed),
{
    match narrowed {
        Some(variant) => if (variant.index as usize) < adt.variants.len() {
            Ok(adt.variants[variant.index as usize])
        } else {
            Err(Fatal::UnknownVariant(adt.did, variant))
        },
        None => if adt.variants.len() == 0 {
            Err(Fatal::AdtWithoutVariant(adt.did))
        } else {
            Ok(adt.variants[0])
        },
    }
}

/// Makes the field access of the field `index` of a value of type `ty`,
/// narrowed to `narrowed` where it was narrowed just before.
fn field_step(adts: &Vec<AdtDef>, ty: &Ty, narrowed: Option<VariantIdx>, index: FieldIdx) -> (result:
    Result<ProjectionElem, Fatal>)
    ensures
        result == field_projection(adts@, *ty, narrowed, index),
{
    match ty {
        Ty::Adt { def_id, .. } => match find_adt(adts, *def_id) {
            None => Err(Fatal::UnknownAdt(*def_id)),
            Some(adt) => match variant_for(adt, narrowed) {
                Err(e) => Err(e),
                Ok(variant_info) => Ok(
                    ProjectionElem::Field(
                        ProjectionElemFieldKind::Adt { typ: *def_id, variant_info, index },
                    ),
                ),
            },
        },
        Ty::Tuple(_) => Ok(ProjectionElem::Field(ProjectionElemFieldKind::Tuple(index))),
        _ => Err(Fatal::ProjectionElemFieldBadType(ty.clone())),
    }
}

/// Finds the type that a value of type `ty` points to.
fn pointee(adts: &Vec<AdtDef>, ty: &Ty) -> (result: Result<Ty, Fatal>)
    ensures
        result == pointee_type(adts@, *ty),
{
    match ty {
        Ty::Ref(inner, _) => Ok((**inner).clone()),
        Ty::Adt { def_id, args } => match find_adt(adts, *def_id) {
            None => Err(Fatal::UnknownAdt(*def_id)),
            Some(adt) => match args.first() {
                Some(first) => if adt.is_box {
                    Ok(first.clone())
                } else {
                    Err(Fatal::PlaceDerefNotRefNorBox(ty.clone()))
                },
                None => Err(Fatal::PlaceDerefNotRefNorBox(ty.clone())),
            },
        },
        _ => Err(Fatal::PlaceDerefNotRefNorBox(ty.clone())),
    }
}

/// Finds the type of the elements of an array or a slice of type `ty`.
fn element(ty: &Ty) -> (result: Option<Ty>)
    ensures
        result == element_type(*ty),
{
    match ty {
        Ty::Slice(inner) => Some((**inner).clone()),
        Ty::Array(inner, _) => Some((**inner).clone()),
        _ => None,
    }
}

/// Reads the element at `i` of `elems`, and the one after it where the two
/// are a narrowing and a field access.
fn step_at(adts: &Vec<AdtDef>, ty: &Ty, elems: &Vec<HostProjectionElem>, i: usize) -> (result:
    Result<Step, Fatal>)
    requires
        i < elems.len(),
    ensures
        result == next_step(adts@, *ty, elems@.skip(i as int)),
        result is Ok ==> 1 <= result->Ok_0.taken && i + result->Ok_0.taken <= elems.len(),
{
    proof {
        assert(elems@.skip(i as int)[0] == elems@[i as int]);
        if i + 1 < elems.len() {
            assert(elems@.skip(i as int)[1] == elems@[i + 1]);
        }
    }
    match &elems[i] {
        HostProjectionElem::Downcast(_, variant) => {
            if i + 1 < elems.len() {
                match &elems[i + 1] {
                    HostProjectionElem::Field(index, field_ty) => {
                        match field_step(adts, ty, Some(*variant), *index) {
                            Ok(kind) => Ok(Step { kind, ty: field_ty.clone(), taken: 2 }),
                            Err(e) => Err(e),
                        }
                    },
                    _ => Err(Fatal::UnexpectedDowncast(*variant)),
                }
            } else {
                Err(Fatal::UnexpectedDowncast(*variant))
            }
        },
        HostProjectionElem::Deref => match pointee(adts, ty) {
            Ok(inner) => Ok(Step { kind: ProjectionElem::Deref, ty: inner, taken: 1 }),
            Err(e) => Err(e),
        },
        HostProjectionElem::Field(index, field_ty) => match field_step(adts, ty, None, *index) {
            Ok(kind) => Ok(Step { kind, ty: field_ty.clone(), taken: 1 }),
            Err(e) => Err(e),
        },
        HostProjectionElem::Index(local) => match element(ty) {
            Some(inner) => Ok(Step { kind: ProjectionElem::Index(*local), ty: inner, taken: 1 }),
            None => Err(Fatal::PlaceIndexNotSlice(ty.clone())),
        },
        HostProjectionElem::ConstantIndex { offset, min_length, from_end } => match element(ty) {
            Some(inner) => Ok(
                Step {
                    kind: ProjectionElem::ConstantIndex {
                        offset: *offset,
                        min_length: *min_length,
                        from_end: *from_end,
                    },
                    ty: inner,
                    taken: 1,
                },
            ),
            None => Err(Fatal::PlaceConstantIndexNotSlice(ty.clone())),
        },
        HostProjectionElem::Subslice { from, to, from_end } => Ok(
            Step {
                kind: ProjectionElem::Subslice { from: *from, to: *to, from_end: *from_end },
                ty: ty.clone(),
                taken: 1,
            },
        ),
        HostProjectionElem::OpaqueCast(cast_ty) => Ok(
            Step { kind: ProjectionElem::OpaqueCast, ty: cast_ty.clone(), taken: 1 },
        ),
    }
}

/// Rebuilds the place that the host names by `place`, whose local variable
/// has the declared type `root_ty`.
///
/// The result fails exactly where a projection does not fit the type it is
/// applied to, where a narrowing to a variant is not followed by a field
/// access, or where the type has no such variant; `place_of` says which
/// failure comes first.
pub fn reconstruct_place(adts: &Vec<AdtDef>, root_ty: &Ty, place: &HostPlace) -> (result: Result<
    Place,
    Fatal,
>)
    ensures
        result == place_of(adts@, *root_ty, place.local, place.projection@),
{
    let mut current = Place { ty: root_ty.clone(), kind: PlaceKind::Local(place.local) };
    let mut i: usize = 0;
    proof {
        assert(place.projection@.skip(0) =~= place.projection@);
    }
    while i < place.projection.len()
        invariant
            i <= place.projection.len(),
            place_of(adts@, *root_ty, place.local, place.projection@) == project_from(
                adts@,
                current,
                place.projection@.skip(i as int),
            ),
        decreases place.projection.len() - i,
    {
        match step_at(adts, &current.ty, &place.projection, i) {
            Err(e) => {
                return Err(e);
            },
            Ok(step) => {
                proof {
                    assert(place.projection@.skip(i as int).skip(step.taken as int)
                        =~= place.projection@.skip(i + step.taken));
                }
                current =
                Place {
                    ty: step.ty,
                    kind: PlaceKind::Projection { place: Box::new(current), kind: step.kind },
                };
                i = i + step.taken;
            },
        }
    }
    Ok(current)
}

/// A place without projections is the local variable itself, with its
/// declared type.
pub proof fn lemma_place_without_projection(adts: Seq<AdtDef>, root_ty: Ty, local: Local)
    ensures
        place_of(adts, root_ty, local, Seq::empty()) == Ok::<Place, Fatal>(
            Place { ty: root_ty, kind: PlaceKind::Local(local) },
        ),
{
}

/// A narrowing to a variant and the field access that follows it become one
/// node above the place they start from: the access to the field, with what
/// the host says of the variant that was narrowed to. No node is left for the
/// narrowing itself. Where the host lists the variants of the type in the
/// order of their indices, the node names the very variant of the narrowing.
pub proof fn lemma_narrowed_field(
    adts: Seq<AdtDef>,
    root_ty: Ty,
    local: Local,
    name: Option<Symbol>,
    variant: VariantIdx,
    index: FieldIdx,
    field_ty: Ty,
)
    requires
        root_ty is Adt,
        lookup_adt(adts, root_ty->Adt_def_id) is Some,
        variant.index < lookup_adt(adts, root_ty->Adt_def_id)->Some_0.variants@.len(),
    ensures
        place_of(
            adts,
            root_ty,
            local,
            seq![HostProjectionElem::Downcast(name, variant), HostProjectionElem::Field(index, field_ty)],
        ) == Ok::<Place, Fatal>(
            Place {
                ty: field_ty,
                kind: PlaceKind::Projection {
                    place: Box::new(Place { ty: root_ty, kind: PlaceKind::Local(local) }),
                    kind: ProjectionElem::Field(
                        ProjectionElemFieldKind::Adt {
                            typ: root_ty->Adt_def_id,
                            variant_info: lookup_adt(
                                adts,
                                root_ty->Adt_def_id,
                            )->Some_0.variants@[variant.index as int],
                            index,
                        },
                    ),
                },
            },
        ),
        lookup_adt(adts, root_ty->Adt_def_id)->Some_0.variants_in_order() ==> lookup_adt(
            adts,
            root_ty->Adt_def_id,
        )->Some_0.variants@[variant.index as int].variant_index == variant,
{
    let elems = seq![
        HostProjectionElem::Downcast(name, variant),
        HostProjectionElem::Field(index, field_ty),
    ];
    let root = Place { ty: root_ty, kind: PlaceKind::Local(local) };
    let step = next_step(adts, root_ty, elems)->Ok_0;
    assert(elems.skip(2) =~= Seq::<HostProjectionElem>::empty());
    let above = Place {
        ty: step.ty,
        kind: PlaceKind::Projection { place: Box::new(root), kind: step.kind },
    };
    assert(project_from(adts, above, elems.skip(2)) == Ok::<Place, Fatal>(above));
}

/// A narrowing to a variant that the type does not have is refused, and the
/// error holds the type and the variant.
pub proof fn lemma_narrowed_to_unknown_variant(
    adts: Seq<AdtDef>,
    root_ty: Ty,
    local: Local,
    name: Option<Symbol>,
    variant: VariantIdx,
    index: FieldIdx,
    field_ty: Ty,
)
    requires
        root_ty is Adt,
        lookup_adt(adts, root_ty->Adt_def_id) is Some,
        variant.index >= lookup_adt(adts, root_ty->Adt_def_id)->Some_0.variants@.len(),
    ensures
        place_of(
            adts,
            root_ty,
            local,
            seq![HostProjectionElem::Downcast(name, variant), HostProjectionElem::Field(index, field_ty)],
        ) == Err::<Place, Fatal>(Fatal::UnknownVariant(root_ty->Adt_def_id, variant)),
{
    lemma_lookup_finds_type(adts, root_ty->Adt_def_id);
}

/// Projections are added on top of the place they start from: the local
/// variable at the bottom and its type stay, one node is added for each
/// element of the list that is no narrowing to a variant, and the types
/// follow from one node to the next where they did below.
pub proof fn lemma_projection_extends(
    adts: Seq<AdtDef>,
    current: Place,
    elems: Seq<HostProjectionElem>,
)
    requires
        project_from(adts, current, elems) is Ok,
    ensures
        project_from(adts, current, elems)->Ok_0.root_local() == current.root_local(),
        project_from(adts, current, elems)->Ok_0.root_ty() == current.root_ty(),
        project_from(adts, current, elems)->Ok_0.depth() + downcasts(elems) == current.depth()
            + elems.len(),
        types_follow(adts, current) ==> types_follow(
            adts,
            project_from(adts, current, elems)->Ok_0,
        ),
    decreases elems.len(),
{
    if elems.len() > 0 {
        let step = next_step(adts, current.ty, elems)->Ok_0;
        let next = Place {
            ty: step.ty,
            kind: PlaceKind::Projection { place: Box::new(current), kind: step.kind },
        };
        lemma_projection_extends(adts, next, elems.skip(step.taken as int));
        assert(next.depth() == 1 + current.depth());
        assert(next.root_local() == current.root_local());
        assert(next.root_ty() == current.root_ty());
        if step.taken == 2 {
            assert(elems.skip(1).skip(1) =~= elems.skip(2));
            assert(elems.skip(1)[0] == elems[1]);
            assert(downcasts(elems.skip(1)) == downcasts(elems.skip(2)));
        }
        assert(types_follow(adts, current) ==> types_follow(adts, next));
    }
}

/// The place that is rebuilt for a local variable starts from that variable
/// with its declared type, has one node for each projection of the host that
/// is no narrowing to a variant, and records at each node the type that the
/// node's own projection leads to.
pub proof fn lemma_place_shape(
    adts: Seq<AdtDef>,
    root_ty: Ty,
    local: Local,
    elems: Seq<HostProjectionElem>,
)
    requires
        place_of(adts, root_ty, local, elems) is Ok,
    ensures
        place_of(adts, root_ty, local, elems)->Ok_0.root_local() == local,
        place_of(adts, root_ty, local, elems)->Ok_0.root_ty() == root_ty,
        place_of(adts, root_ty, local, elems)->Ok_0.depth() + downcasts(elems) == elems.len(),
        types_follow(adts, place_of(adts, root_ty, local, elems)->Ok_0),
{
    lemma_projection_extends(adts, Place { ty: root_ty, kind: PlaceKind::Local(local) }, elems);
}

} // verus!
