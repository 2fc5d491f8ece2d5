//! Exporting the items of a unit.
//!
//! Each item is exported with the bodies that were asked for: the expression
//! tree, which comes from the bodies that were extracted up front, the
//! control-flow graph, which the host holds, both, or none. Items that come
//! from a macro call whose macro is to be kept are replaced by the call.

use std::collections::HashMap;
use vstd::prelude::*;
use vstd::string::StringExecFns;
use crate::driver::BodySelection;
use crate::error::{message_of, Fatal, HostKind};
use crate::host::{AdtDef, HostBodies};
use crate::ids::{
    decimal, decimal_text, dummy_host_span, exported_span, DefId, ErrorGuaranteed, HostSpan,
    LocalDefId, Span, Ty, TyList,
};
use crate::macro_calls::{clone_path, substitute_of, MacroCall, MacroCalls};
use crate::options::{Namespace, Options};
use crate::scheduler::{
    extraction_of, failure_of, failures_of, owner_ids, precompute_local_thir_bodies, schedule_of,
    visited, BodyOwner, BodyState, ExtractedBody, ExtractionFailure,
};
use crate::mir::{Built, IsMirKind, MirBody};
use crate::state::{
    lemma_extends_twice, lemma_grown_by_none, lemma_grown_extends, lemma_grown_twice, Footprint,
    State,
};
use crate::thir::{
    error_expr, expr_of, expr_spans, only_spans, translate_expr, Expr, ExprKind, LitKind,
};
use crate::translate::{body_failure, body_footprint, is_body_of, translate_body};

verus! {

/// The bodies of an exported item.
#[derive(Debug, PartialEq, Eq)]
pub enum Body {
    /// The item is exported by its signature alone.
    NoBody,
    Thir(Expr),
    MirBuilt(MirBody<Built>),
    MirBuiltAndThir(MirBody<Built>, Expr),
}

/// Why the expression tree of the definition `owner` cannot be exported, if
/// it cannot: no body was extracted for it, or its tree cannot be built.
pub open spec fn thir_failure(cache: Map<u32, ExtractedBody>, owner: LocalDefId) -> Option<Fatal> {
    if cache.contains_key(owner.index) {
        match expr_of(cache[owner.index].thir@, cache[owner.index].root) {
            Ok(_) => None,
            Err(e) => Some(e),
        }
    } else {
        Some(Fatal::ThirBodyNotFound(owner))
    }
}

/// Why the control-flow graph of the definition `owner` cannot be exported,
/// if it cannot: the host holds none, or it cannot be translated.
pub open spec fn mir_failure(adts: Seq<AdtDef>, bodies: HostBodies, owner: LocalDefId) -> Option<
    Fatal,
> {
    match Built::body_at(bodies, owner) {
        Some(body) => body_failure(adts, body),
        None => Some(Fatal::MirBodyNotFound(owner)),
    }
}

/// Why the bodies `selection` of the definition `owner` cannot be exported,
/// if they cannot. The control-flow graph comes first.
pub open spec fn item_body_failure(
    state: State,
    bodies: HostBodies,
    selection: BodySelection,
    owner: LocalDefId,
) -> Option<Fatal> {
    match selection {
        BodySelection::NoBody => None,
        BodySelection::Thir => thir_failure(state.base.cached_thirs.bodies@, owner),
        BodySelection::MirBuilt => mir_failure(state.base.adts@, bodies, owner),
        BodySelection::MirBuiltAndThir => if mir_failure(state.base.adts@, bodies, owner) is Some {
            mir_failure(state.base.adts@, bodies, owner)
        } else {
            thir_failure(state.base.cached_thirs.bodies@, owner)
        },
    }
}

/// Whether `tree` is the expression tree of the definition `owner`.
pub open spec fn is_thir_of(cache: Map<u32, ExtractedBody>, owner: LocalDefId, tree: Expr) -> bool {
    cache.contains_key(owner.index) && expr_of(cache[owner.index].thir@, cache[owner.index].root)
        == Ok::<Expr, Fatal>(tree)
}

/// Whether `graph` is the control-flow graph of the definition `owner`.
pub open spec fn is_mir_of(
    adts: Seq<AdtDef>,
    bodies: HostBodies,
    owner: LocalDefId,
    graph: MirBody<Built>,
) -> bool {
    Built::body_at(bodies, owner) is Some && is_body_of(
        adts,
        Built::body_at(bodies, owner)->Some_0,
        graph,
    )
}

/// Whether `body` holds the bodies `selection` of the definition `owner`.
pub open spec fn is_item_body_of(
    state: State,
    bodies: HostBodies,
    selection: BodySelection,
    owner: LocalDefId,
    body: Body,
) -> bool {
    match selection {
        BodySelection::NoBody => body is NoBody,
        BodySelection::Thir => body matches Body::Thir(tree) && is_thir_of(
            state.base.cached_thirs.bodies@,
            owner,
            tree,
        ),
        BodySelection::MirBuilt => body matches Body::MirBuilt(graph) && is_mir_of(
            state.base.adts@,
            bodies,
            owner,
            graph,
        ),
        BodySelection::MirBuiltAndThir => body matches Body::MirBuiltAndThir(graph, tree)
            && is_mir_of(state.base.adts@, bodies, owner, graph) && is_thir_of(
            state.base.cached_thirs.bodies@,
            owner,
            tree,
        ),
    }
}

/// What exporting the expression tree of `owner` adds to the context.
pub open spec fn thir_footprint(cache: Map<u32, ExtractedBody>, owner: LocalDefId) -> Footprint {
    if cache.contains_key(owner.index) {
        only_spans(expr_spans(cache[owner.index].thir@, cache[owner.index].root))
    } else {
        Footprint::none()
    }
}

/// What exporting the control-flow graph of `owner` adds to the context.
pub open spec fn mir_footprint(adts: Seq<AdtDef>, bodies: HostBodies, owner: LocalDefId)
    -> Footprint {
    match Built::body_at(bodies, owner) {
        Some(body) => body_footprint(adts, body),
        None => Footprint::none(),
    }
}

/// What exporting the bodies `selection` of `owner` adds to the context.
pub open spec fn item_body_footprint(
    state: State,
    bodies: HostBodies,
    selection: BodySelection,
    owner: LocalDefId,
) -> Footprint {
    match selection {
        BodySelection::NoBody => Footprint::none(),
        BodySelection::Thir => thir_footprint(state.base.cached_thirs.bodies@, owner),
        BodySelection::MirBuilt => mir_footprint(state.base.adts@, bodies, owner),
        BodySelection::MirBuiltAndThir => mir_footprint(state.base.adts@, bodies, owner).and(
            thir_footprint(state.base.cached_thirs.bodies@, owner),
        ),
    }
}

/// Exports the expression tree of the definition `owner` from the body that
/// was extracted for it.
pub fn export_thir(state: &mut State, owner: LocalDefId) -> (result: Result<Expr, Fatal>)
    requires
        old(state).wf(),
    ensures
        match result {
            Ok(tree) => thir_failure(old(state).base.cached_thirs.bodies@, owner) is None
                && is_thir_of(old(state).base.cached_thirs.bodies@, owner, tree) && final(state).grown_by(old(state), thir_footprint(old(state).base.cached_thirs.bodies@, owner)),
            Err(e) => thir_failure(old(state).base.cached_thirs.bodies@, owner) == Some(e)
                && final(state).extends(old(state)),
        },
{
    let copy = match state.base.cached_thirs.get(owner) {
        None => {
            proof {
                lemma_grown_by_none(state);
            }
            return Err(Fatal::ThirBodyNotFound(owner));
        },
        Some(body) => (body.thir.clone(), body.root),
    };
    translate_expr(state, &copy.0, copy.1)
}

/// Exports the control-flow graph of the definition `owner` as the host
/// holds it right after it was built.
pub fn export_mir(state: &mut State, bodies: &HostBodies, owner: LocalDefId) -> (result: Result<
    MirBody<Built>,
    Fatal,
>)
    requires
        old(state).wf(),
    ensures
        match result {
            Ok(graph) => mir_failure(old(state).base.adts@, *bodies, owner) is None && is_mir_of(
                old(state).base.adts@,
                *bodies,
                owner,
                graph,
            ) && final(state).grown_by(
                old(state),
                mir_footprint(old(state).base.adts@, *bodies, owner),
            ),
            Err(e) => mir_failure(old(state).base.adts@, *bodies, owner) == Some(e) && final(state).extends(old(state)),
        },
{
    match Built::get_mir(bodies, owner) {
        None => {
            proof {
                lemma_grown_by_none(state);
            }
            Err(Fatal::MirBodyNotFound(owner))
        },
        Some(body) => translate_body::<Built>(state, body),
    }
}

/// Exports the bodies `selection` of the definition `owner`.
pub fn export_body(
    state: &mut State,
    bodies: &HostBodies,
    selection: BodySelection,
    owner: LocalDefId,
) -> (result: Result<Body, Fatal>)
    requires
        old(state).wf(),
    ensures
        match result {
            Ok(body) => item_body_failure(*old(state), *bodies, selection, owner) is None
                && is_item_body_of(*old(state), *bodies, selection, owner, body) && final(state).grown_by(old(state), item_body_footprint(*old(state), *bodies, selection, owner)),
            Err(e) => item_body_failure(*old(state), *bodies, selection, owner) == Some(e)
                && final(state).extends(old(state)),
        },
{
    match selection {
        BodySelection::NoBody => {
            proof {
                lemma_grown_by_none(state);
            }
            Ok(Body::NoBody)
        },
        BodySelection::Thir => match export_thir(state, owner) {
            Ok(tree) => Ok(Body::Thir(tree)),
            Err(e) => Err(e),
        },
        BodySelection::MirBuilt => match export_mir(state, bodies, owner) {
            Ok(graph) => Ok(Body::MirBuilt(graph)),
            Err(e) => Err(e),
        },
        BodySelection::MirBuiltAndThir => match export_mir(state, bodies, owner) {
            Err(e) => Err(e),
            Ok(graph) => {
                let ghost middle = *state;
                match export_thir(state, owner) {
                    Err(e) => {
                        proof {
                            lemma_extends_twice(old(state), &middle, state);
                        }
                        Err(e)
                    },
                    Ok(tree) => {
                        proof {
                            lemma_grown_twice(
                                old(state),
                                &middle,
                                state,
                                mir_footprint(old(state).base.adts@, *bodies, owner),
                                thir_footprint(old(state).base.cached_thirs.bodies@, owner),
                            );
                        }
                        Ok(Body::MirBuiltAndThir(graph, tree))
                    },
                }
            },
        },
    }
}

/// What an item is, as the host holds it.
#[derive(Debug, PartialEq, Eq)]
pub enum HostItemKind {
    Const { ty: Ty },
    Fn { inputs: TyList, output: Ty },
    /// An implementation: the trait, where it is one of a trait, and the
    /// type that it is for.
    Impl { of_trait: Option<DefId>, self_ty: Ty },
    /// An item of a kind that has no exported form yet.
    Unsupported(HostKind),
}

/// An item of the unit, as the host holds it.
#[derive(Debug, PartialEq, Eq)]
pub struct HostItem {
    pub owner_id: LocalDefId,
    pub span: HostSpan,
    /// The span of the visibility of the item.
    pub vis_span: HostSpan,
    pub kind: HostItemKind,
}

/// A macro call that is exported in place of what it expands to.
#[derive(Debug, PartialEq, Eq)]
pub struct MacroInvocation {
    /// The path of the macro.
    pub macro_ident: Vec<String>,
    /// The span of the arguments.
    pub argument: Span,
    /// The span of the call.
    pub span: Span,
}

/// What an exported item is.
#[derive(Debug, PartialEq, Eq)]
pub enum ItemKind {
    Const { ty: Ty, body: Body },
    Fn { inputs: TyList, output: Ty, body: Body },
    Impl { of_trait: Option<DefId>, self_ty: Ty },
    MacroInvokation(MacroInvocation),
}

/// An exported item.
#[derive(Debug, PartialEq, Eq)]
pub struct Item {
    pub def_id: Option<DefId>,
    pub owner_id: DefId,
    pub span: Span,
    pub vis_span: Span,
    pub kind: ItemKind,
}

/// What is exported of an implementation beside its item.
#[derive(Debug, PartialEq, Eq)]
pub struct ImplInfos {
    pub trait_ref: Option<DefId>,
    pub typ: Ty,
}

/// The identifier of the definition `id` among those of all crates.
pub open spec fn def_id_of(id: LocalDefId) -> DefId {
    DefId { krate: 0, index: id.index }
}

/// Why the item `item` cannot be exported, if it cannot.
pub open spec fn item_failure(
    state: State,
    bodies: HostBodies,
    selection: BodySelection,
    item: HostItem,
) -> Option<Fatal> {
    match item.kind {
        HostItemKind::Const { .. } => item_body_failure(state, bodies, selection, item.owner_id),
        HostItemKind::Fn { .. } => item_body_failure(state, bodies, selection, item.owner_id),
        HostItemKind::Impl { .. } => None,
        HostItemKind::Unsupported(kind) => Some(Fatal::NotYetTranslated(kind)),
    }
}

/// Whether `exported` is the item `item` as it is exported.
pub open spec fn is_item_of(
    state: State,
    bodies: HostBodies,
    selection: BodySelection,
    item: HostItem,
    exported: Item,
) -> bool {
    &&& exported.def_id == Some(def_id_of(item.owner_id))
    &&& exported.owner_id == def_id_of(item.owner_id)
    &&& exported.span == exported_span(item.span)
    &&& exported.vis_span == exported_span(item.vis_span)
    &&& match item.kind {
        HostItemKind::Const { ty } => exported.kind matches ItemKind::Const { ty: t, body } && t
            == ty && is_item_body_of(state, bodies, selection, item.owner_id, body),
        HostItemKind::Fn { inputs, output } => exported.kind matches ItemKind::Fn {
            inputs: i,
            output: o,
            body,
        } && i == inputs && o == output && is_item_body_of(
            state,
            bodies,
            selection,
            item.owner_id,
            body,
        ),
        HostItemKind::Impl { of_trait, self_ty } => exported.kind matches ItemKind::Impl {
            of_trait: t,
            self_ty: s,
        } && t == of_trait && s == self_ty,
        HostItemKind::Unsupported(_) => false,
    }
}

/// What exporting the item `item` adds to the context.
pub open spec fn item_footprint(
    state: State,
    bodies: HostBodies,
    selection: BodySelection,
    item: HostItem,
) -> Footprint {
    Footprint::def_id(def_id_of(item.owner_id)).and(Footprint::span(item.span)).and(
        Footprint::span(item.vis_span),
    ).and(
        match item.kind {
            HostItemKind::Const { .. } => item_body_footprint(
                state,
                bodies,
                selection,
                item.owner_id,
            ),
            HostItemKind::Fn { .. } => item_body_footprint(state, bodies, selection, item.owner_id),
            HostItemKind::Impl { of_trait, .. } => match of_trait {
                Some(id) => Footprint::def_id(id),
                None => Footprint::none(),
            },
            HostItemKind::Unsupported(_) => Footprint::none(),
        },
    )
}

/// Exports one item.
pub fn export_item(
    state: &mut State,
    bodies: &HostBodies,
    selection: BodySelection,
    item: &HostItem,
) -> (result: Result<Item, Fatal>)
    requires
        old(state).wf(),
    ensures
        match result {
            Ok(exported) => item_failure(*old(state), *bodies, selection, *item) is None
                && is_item_of(*old(state), *bodies, selection, *item, exported) && final(state).grown_by(old(state), item_footprint(*old(state), *bodies, selection, *item)),
            Err(e) => item_failure(*old(state), *bodies, selection, *item) == Some(e) && final(state).extends(old(state)),
        },
{
    let owner_id = state.translate_def_id(item.owner_id.to_def_id());
    let ghost s1 = *state;
    let span = state.translate_span(item.span);
    let ghost s2 = *state;
    let vis_span = state.translate_span(item.vis_span);
    let ghost s3 = *state;
    let ghost f1 = Footprint::def_id(def_id_of(item.owner_id));
    let ghost f2 = Footprint::span(item.span);
    let ghost f3 = Footprint::span(item.vis_span);
    proof {
        lemma_grown_twice(old(state), &s1, &s2, f1, f2);
        lemma_grown_twice(old(state), &s2, &s3, f1.and(f2), f3);
        lemma_grown_extends(old(state), &s3, f1.and(f2).and(f3));
    }
    let kind = match &item.kind {
        HostItemKind::Const { ty } => match export_body(state, bodies, selection, item.owner_id) {
            Err(e) => {
                proof {
                    lemma_extends_twice(old(state), &s3, state);
                }
                return Err(e);
            },
            Ok(body) => ItemKind::Const { ty: ty.clone(), body },
        },
        HostItemKind::Fn { inputs, output } => match export_body(
            state,
            bodies,
            selection,
            item.owner_id,
        ) {
            Err(e) => {
                proof {
                    lemma_extends_twice(old(state), &s3, state);
                }
                return Err(e);
            },
            Ok(body) => ItemKind::Fn { inputs: inputs.clone(), output: output.clone(), body },
        },
        HostItemKind::Impl { of_trait, self_ty } => {
            match of_trait {
                Some(id) => {
                    state.translate_def_id(*id);
                },
                None => {
                    proof {
                        lemma_grown_by_none(state);
                    }
                },
            }
            ItemKind::Impl { of_trait: *of_trait, self_ty: self_ty.clone() }
        },
        HostItemKind::Unsupported(kind) => {
            return Err(Fatal::NotYetTranslated(*kind));
        },
    };
    proof {
        let f4 = match item.kind {
            HostItemKind::Const { .. } => item_body_footprint(
                *old(state),
                *bodies,
                selection,
                item.owner_id,
            ),
            HostItemKind::Fn { .. } => item_body_footprint(
                *old(state),
                *bodies,
                selection,
                item.owner_id,
            ),
            HostItemKind::Impl { of_trait, .. } => match of_trait {
                Some(id) => Footprint::def_id(id),
                None => Footprint::none(),
            },
            HostItemKind::Unsupported(_) => Footprint::none(),
        };
        assert(item_body_footprint(*old(state), *bodies, selection, item.owner_id)
            == item_body_footprint(s3, *bodies, selection, item.owner_id));
        assert(state.grown_by(&s3, f4));
        lemma_grown_twice(old(state), &s3, state, f1.and(f2).and(f3), f4);
    }
    Ok(Item { def_id: Some(owner_id), owner_id, span, vis_span, kind })
}

/// What is exported for a place of the list of items: the item itself, or
/// the macro call that it comes from.
#[derive(Debug, Clone, Copy, PartialEq, Eq, Structural)]
pub enum Planned {
    /// The item at this place of the list.
    Translate { item: usize },
    /// The call of this record, for the item at this place and those that
    /// follow it and come from the same call.
    Invocation { record: usize, item: usize },
}

/// The record whose call is exported in place of `item`, if there is one.
pub open spec fn substitute_of_item(
    records: Seq<MacroCall>,
    patterns: Seq<Namespace>,
    item: HostItem,
) -> Option<usize> {
    substitute_of(records, patterns, exported_span(item.span))
}

/// What is exported for the items `items`: each item that no recorded call
/// stands for, and each call once for the run of items that it stands for.
pub open spec fn plan_of(records: Seq<MacroCall>, patterns: Seq<Namespace>, items: Seq<HostItem>)
    -> Seq<Planned>
    decreases items.len(),
{
    if items.len() == 0 {
        Seq::empty()
    } else {
        let before = plan_of(records, patterns, items.drop_last());
        let last = (items.len() - 1) as usize;
        match substitute_of_item(records, patterns, items.last()) {
            None => before.push(Planned::Translate { item: last }),
            Some(record) => if items.len() >= 2 && substitute_of_item(
                records,
                patterns,
                items[items.len() - 2],
            ) == Some(record) {
                before
            } else {
                before.push(Planned::Invocation { record, item: last })
            },
        }
    }
}

/// Whether `planned` names an item of `items` and a record of `records`.
pub open spec fn planned_in_range(planned: Planned, items: nat, records: nat) -> bool {
    match planned {
        Planned::Translate { item } => item < items,
        Planned::Invocation { record, item } => item < items && record < records,
    }
}

/// Decides what is exported for the items `items`.
pub fn plan_items(calls: &MacroCalls, patterns: &Vec<Namespace>, items: &Vec<HostItem>) -> (plan: Vec<
    Planned,
>)
    ensures
        plan@ == plan_of(calls.records@, patterns@, items@),
        forall|k: int|
            0 <= k < plan@.len() ==> planned_in_range(
                #[trigger] plan@[k],
                items@.len(),
                calls.records@.len(),
            ),
{
    let mut plan: Vec<Planned> = Vec::new();
    let mut previous: Option<usize> = None;
    let mut i: usize = 0;
    proof {
        assert(items@.take(0) =~= Seq::<HostItem>::empty());
    }
    while i < items.len()
        invariant
            i <= items.len(),
            plan@ == plan_of(calls.records@, patterns@, items@.take(i as int)),
            i > 0 ==> previous == substitute_of_item(calls.records@, patterns@, items@[i - 1]),
            forall|k: int|
                0 <= k < plan@.len() ==> planned_in_range(
                    #[trigger] plan@[k],
                    items@.len(),
                    calls.records@.len(),
                ),
        decreases items.len() - i,
    {
        let span = items[i].span.exported();
        let found = calls.substitution_for(patterns, &span);
        proof {
            let now = items@.take(i + 1);
            assert(now.drop_last() =~= items@.take(i as int));
            assert(now.last() == items@[i as int]);
            if i > 0 {
                assert(now[now.len() - 2] == items@[i - 1]);
            }
        }
        match found {
            None => {
                plan.push(Planned::Translate { item: i });
            },
            Some(record) => {
                let same: bool = i > 0 && match previous {
                    Some(before) => before == record,
                    None => false,
                };
                if !same {
                    plan.push(Planned::Invocation { record, item: i });
                }
            },
        }
        previous = found;
        i = i + 1;
    }
    proof {
        assert(items@.take(i as int) =~= items@);
    }
    plan
}

/// An inconsistency that ended the export, with the item in which it was
/// met.
#[derive(Debug, PartialEq, Eq)]
pub struct ExportFailure {
    pub fatal: Fatal,
    /// The item that could not be exported.
    pub owner: LocalDefId,
    /// The span of the item.
    pub span: HostSpan,
}

/// The failure `fatal` of the export of `item`.
pub open spec fn failure_in(item: HostItem, fatal: Fatal) -> ExportFailure {
    ExportFailure { fatal, owner: item.owner_id, span: item.span }
}

/// Why what is planned cannot be exported, if it cannot. A macro call can
/// always be exported.
pub open spec fn planned_failure(
    state: State,
    bodies: HostBodies,
    selection: BodySelection,
    items: Seq<HostItem>,
    planned: Planned,
) -> Option<ExportFailure> {
    match planned {
        Planned::Translate { item } => match item_failure(
            state,
            bodies,
            selection,
            items[item as int],
        ) {
            Some(fatal) => Some(failure_in(items[item as int], fatal)),
            None => None,
        },
        Planned::Invocation { .. } => None,
    }
}

/// Whether `exported` is what is planned, as it is exported.
pub open spec fn is_planned_item(
    state: State,
    bodies: HostBodies,
    selection: BodySelection,
    items: Seq<HostItem>,
    planned: Planned,
    exported: Item,
) -> bool {
    match planned {
        Planned::Translate { item } => is_item_of(
            state,
            bodies,
            selection,
            items[item as int],
            exported,
        ),
        Planned::Invocation { record, item } => {
            let call = state.base.macro_infos.records@[record as int];
            let owner = def_id_of(items[item as int].owner_id);
            &&& exported.def_id == Some(owner)
            &&& exported.owner_id == owner
            &&& exported.span == call.call_span
            &&& exported.vis_span == exported_span(dummy_host_span())
            &&& exported.kind matches ItemKind::MacroInvokation(invocation)
            &&& invocation.macro_ident@ == call.path@
            &&& invocation.argument == call.argument_span
            &&& invocation.span == call.call_span
        },
    }
}

/// What exporting what is planned adds to the context.
pub open spec fn planned_footprint(
    state: State,
    bodies: HostBodies,
    selection: BodySelection,
    items: Seq<HostItem>,
    planned: Planned,
) -> Footprint {
    match planned {
        Planned::Translate { item } => item_footprint(state, bodies, selection, items[item as int]),
        Planned::Invocation { item, .. } => Footprint::def_id(
            def_id_of(items[item as int].owner_id),
        ).and(Footprint::span(dummy_host_span())),
    }
}

/// The first failure of what is planned.
pub open spec fn plan_failure(
    state: State,
    bodies: HostBodies,
    selection: BodySelection,
    items: Seq<HostItem>,
    plan: Seq<Planned>,
) -> Option<ExportFailure>
    decreases plan.len(),
{
    if plan.len() == 0 {
        None
    } else {
        let first = planned_failure(state, bodies, selection, items, plan[0]);
        if first is Some {
            first
        } else {
            plan_failure(state, bodies, selection, items, plan.skip(1))
        }
    }
}

/// What exporting all that is planned adds to the context.
pub open spec fn plan_footprint(
    state: State,
    bodies: HostBodies,
    selection: BodySelection,
    items: Seq<HostItem>,
    plan: Seq<Planned>,
) -> Footprint
    decreases plan.len(),
{
    if plan.len() == 0 {
        Footprint::none()
    } else {
        plan_footprint(state, bodies, selection, items, plan.drop_last()).and(
            planned_footprint(state, bodies, selection, items, plan.last()),
        )
    }
}

/// Whether `exported` holds what is planned, one for one.
pub open spec fn are_planned_items(
    state: State,
    bodies: HostBodies,
    selection: BodySelection,
    items: Seq<HostItem>,
    plan: Seq<Planned>,
    exported: Seq<Item>,
) -> bool {
    &&& exported.len() == plan.len()
    &&& forall|k: int|
        0 <= k < plan.len() ==> is_planned_item(
            state,
            bodies,
            selection,
            items,
            plan[k],
            #[trigger] exported[k],
        )
}

/// Exports the macro call of the record `record` in place of the item at
/// `item`.
fn export_invocation(state: &mut State, items: &Vec<HostItem>, record: usize, item: usize) -> (exported:
    Item)
    requires
        old(state).wf(),
        item < items@.len(),
        record < old(state).base.macro_infos.records@.len(),
    ensures
        final(state).grown_by(
            old(state),
            Footprint::def_id(def_id_of(items@[item as int].owner_id)).and(
                Footprint::span(dummy_host_span()),
            ),
        ),
        exported.def_id == Some(def_id_of(items@[item as int].owner_id)),
        exported.owner_id == def_id_of(items@[item as int].owner_id),
        exported.span == old(state).base.macro_infos.records@[record as int].call_span,
        exported.vis_span == exported_span(dummy_host_span()),
        exported.kind matches ItemKind::MacroInvokation(invocation) && invocation.macro_ident@
            == old(state).base.macro_infos.records@[record as int].path@ && invocation.argument
            == old(state).base.macro_infos.records@[record as int].argument_span && invocation.span
            == old(state).base.macro_infos.records@[record as int].call_span,
{
    let owner_id = state.translate_def_id(items[item].owner_id.to_def_id());
    let ghost middle = *state;
    let vis_span = state.translate_span(HostSpan::dummy());
    proof {
        lemma_grown_twice(
            old(state),
            &middle,
            state,
            Footprint::def_id(def_id_of(items@[item as int].owner_id)),
            Footprint::span(dummy_host_span()),
        );
    }
    let call = &state.base.macro_infos.records[record];
    Item {
        def_id: Some(owner_id),
        owner_id,
        span: call.call_span,
        vis_span,
        kind: ItemKind::MacroInvokation(
            MacroInvocation {
                macro_ident: clone_path(&call.path),
                argument: call.argument_span,
                span: call.call_span,
            },
        ),
    }
}

/// Exports the items `items` of a unit. An item that comes from a recorded
/// macro call whose macro is to be kept is not exported itself: the call is,
/// once for each run of such items.
pub fn inline_macro_invocations(
    state: &mut State,
    bodies: &HostBodies,
    selection: BodySelection,
    items: &Vec<HostItem>,
) -> (result: Result<Vec<Item>, ExportFailure>)
    requires
        old(state).wf(),
    ensures
        match result {
            Ok(exported) => plan_failure(
                *old(state),
                *bodies,
                selection,
                items@,
                plan_of(
                    old(state).base.macro_infos.records@,
                    old(state).base.options.inline_macro_calls@,
                    items@,
                ),
            ) is None && are_planned_items(
                *old(state),
                *bodies,
                selection,
                items@,
                plan_of(
                    old(state).base.macro_infos.records@,
                    old(state).base.options.inline_macro_calls@,
                    items@,
                ),
                exported@,
            ) && final(state).grown_by(
                old(state),
                plan_footprint(
                    *old(state),
                    *bodies,
                    selection,
                    items@,
                    plan_of(
                        old(state).base.macro_infos.records@,
                        old(state).base.options.inline_macro_calls@,
                        items@,
                    ),
                ),
            ),
            Err(e) => plan_failure(
                *old(state),
                *bodies,
                selection,
                items@,
                plan_of(
                    old(state).base.macro_infos.records@,
                    old(state).base.options.inline_macro_calls@,
                    items@,
                ),
            ) == Some(e) && final(state).extends(old(state)),
        },
{
    let plan = plan_items(&state.base.macro_infos, &state.base.options.inline_macro_calls, items);
    let ghost start = *old(state);
    let mut exported: Vec<Item> = Vec::new();
    let mut k: usize = 0;
    proof {
        assert(plan@.skip(0) =~= plan@);
        assert(plan@.take(0) =~= Seq::<Planned>::empty());
        lemma_grown_by_none(state);
    }
    while k < plan.len()
        invariant
            k <= plan.len(),
            start == *old(state),
            plan@ == plan_of(
                start.base.macro_infos.records@,
                start.base.options.inline_macro_calls@,
                items@,
            ),
            state.wf(),
            exported@.len() == k,
            forall|j: int|
                0 <= j < plan@.len() ==> planned_in_range(
                    #[trigger] plan@[j],
                    items@.len(),
                    start.base.macro_infos.records@.len(),
                ),
            forall|j: int|
                0 <= j < k ==> is_planned_item(
                    start,
                    *bodies,
                    selection,
                    items@,
                    plan@[j],
                    #[trigger] exported@[j],
                ),
            plan_failure(start, *bodies, selection, items@, plan@) == plan_failure(
                start,
                *bodies,
                selection,
                items@,
                plan@.skip(k as int),
            ),
            state.grown_by(
                &start,
                plan_footprint(start, *bodies, selection, items@, plan@.take(k as int)),
            ),
        decreases plan.len() - k,
    {
        let ghost before = *state;
        proof {
            assert(plan@.skip(k as int).skip(1) =~= plan@.skip(k + 1));
            assert(plan@.skip(k as int)[0] == plan@[k as int]);
            assert(plan@.take(k + 1).drop_last() =~= plan@.take(k as int));
            assert(plan@.take(k + 1).last() == plan@[k as int]);
            assert(planned_in_range(
                plan@[k as int],
                items@.len(),
                start.base.macro_infos.records@.len(),
            ));
            lemma_same_reads(&start, &before, *bodies, selection, items@, plan@[k as int]);
        }
        match plan[k] {
            Planned::Translate { item } => match export_item(state, bodies, selection, &items[item]) {
                Err(e) => {
                    proof {
                        lemma_grown_extends(
                            &start,
                            &before,
                            plan_footprint(start, *bodies, selection, items@, plan@.take(k as int)),
                        );
                        lemma_extends_twice(&start, &before, state);
                        let failure = failure_in(items@[item as int], e);
                        assert(planned_failure(start, *bodies, selection, items@, plan@[k as int])
                            == Some(failure));
                        assert(plan_failure(
                            start,
                            *bodies,
                            selection,
                            items@,
                            plan@.skip(k as int),
                        ) == Some(failure));
                    }
                    return Err(
                        ExportFailure {
                            fatal: e,
                            owner: items[item].owner_id,
                            span: items[item].span,
                        },
                    );
                },
                Ok(item) => {
                    proof {
                        lemma_same_item(
                            &start,
                            &before,
                            *bodies,
                            selection,
                            items@,
                            plan@[k as int],
                            item,
                        );
                    }
                    exported.push(item);
                },
            },
            Planned::Invocation { record, item } => {
                let invocation = export_invocation(state, items, record, item);
                proof {
                    lemma_same_item(
                        &start,
                        &before,
                        *bodies,
                        selection,
                        items@,
                        plan@[k as int],
                        invocation,
                    );
                }
                exported.push(invocation);
            },
        }
        proof {
            lemma_grown_twice(
                &start,
                &before,
                state,
                plan_footprint(start, *bodies, selection, items@, plan@.take(k as int)),
                planned_footprint(start, *bodies, selection, items@, plan@[k as int]),
            );
        }
        k = k + 1;
    }
    proof {
        assert(plan@.take(k as int) =~= plan@);
    }
    Ok(exported)
}

/// What is exported depends on what the context reads as, not on the two
/// sets: a context that has grown exports the same.
proof fn lemma_same_reads(
    start: &State,
    now: &State,
    bodies: HostBodies,
    selection: BodySelection,
    items: Seq<HostItem>,
    planned: Planned,
)
    requires
        now.reads_as(start),
    ensures
        planned_failure(*now, bodies, selection, items, planned) == planned_failure(
            *start,
            bodies,
            selection,
            items,
            planned,
        ),
        planned_footprint(*now, bodies, selection, items, planned) == planned_footprint(
            *start,
            bodies,
            selection,
            items,
            planned,
        ),
{
}

/// What was exported in a context that has grown is what is exported in the
/// context that it came from.
proof fn lemma_same_item(
    start: &State,
    now: &State,
    bodies: HostBodies,
    selection: BodySelection,
    items: Seq<HostItem>,
    planned: Planned,
    exported: Item,
)
    requires
        now.reads_as(start),
    ensures
        is_planned_item(*now, bodies, selection, items, planned, exported) == is_planned_item(
            *start,
            bodies,
            selection,
            items,
            planned,
            exported,
        ),
{
}

/// What the export reads of a unit of the host.
#[derive(Debug)]
pub struct HostUnit {
    /// The items, in the order of the source.
    pub items: Vec<HostItem>,
    /// The definitions that may own a body.
    pub body_owners: Vec<BodyOwner>,
    /// What the host answered when it was asked for the body of each
    /// definition, by the index of the definition. The host is asked in the
    /// order of `extraction_order`.
    pub thir_bodies: HashMap<u32, BodyState>,
    /// The lowered bodies.
    pub bodies: HostBodies,
    /// The structs, enums and unions.
    pub adts: Vec<AdtDef>,
}

/// What an export gives.
#[derive(Debug)]
pub struct Conversion {
    /// The context at the end: its two sets hold the spans and the
    /// definitions that were met.
    pub state: State,
    /// The reports of the bodies that could not be had.
    pub failures: Vec<ExtractionFailure>,
    /// What is exported of each implementation beside its item.
    pub impl_infos: Vec<(DefId, ImplInfos)>,
    /// The exported items, or the inconsistency that ended the export.
    pub items: Result<Vec<Item>, ExportFailure>,
}

/// The test for the implementations among the items.
pub open spec fn is_impl() -> spec_fn(HostItem) -> bool {
    |item: HostItem| item.kind is Impl
}

/// What is exported of the implementation `item` beside its item.
pub open spec fn impl_infos_of_item(item: HostItem) -> (DefId, ImplInfos) {
    (
        def_id_of(item.owner_id),
        ImplInfos { trait_ref: item.kind->Impl_of_trait, typ: item.kind->Impl_self_ty },
    )
}

/// What is exported of the implementations among `items`, in their order.
pub open spec fn impl_infos_of(items: Seq<HostItem>) -> Seq<(DefId, ImplInfos)> {
    items.filter(is_impl()).map_values(|item: HostItem| impl_infos_of_item(item))
}

/// Lists, for each implementation among `items`, the trait that it
/// implements and the type that it is for.
pub fn impl_def_ids_to_impled_types_and_bounds(items: &Vec<HostItem>) -> (infos: Vec<
    (DefId, ImplInfos),
>)
    ensures
        infos@ == impl_infos_of(items@),
{
    let mut infos: Vec<(DefId, ImplInfos)> = Vec::new();
    let mut i: usize = 0;
    let ghost read = |item: HostItem| impl_infos_of_item(item);
    proof {
        assert(items@.take(0) =~= Seq::<HostItem>::empty());
        items@.take(0).lemma_filter_len(is_impl());
        assert(infos@ =~= items@.take(0).filter(is_impl()).map_values(read));
    }
    while i < items.len()
        invariant
            i <= items.len(),
            read == (|item: HostItem| impl_infos_of_item(item)),
            infos@ == items@.take(i as int).filter(is_impl()).map_values(read),
        decreases items.len() - i,
    {
        proof {
            assert(items@.take(i + 1) =~= items@.take(i as int).push(items@[i as int]));
            items@.take(i as int).lemma_filter_push(items@[i as int], is_impl());
        }
        match &items[i].kind {
            HostItemKind::Impl { of_trait, self_ty } => {
                infos.push(
                    (
                        items[i].owner_id.to_def_id(),
                        ImplInfos { trait_ref: *of_trait, typ: self_ty.clone() },
                    ),
                );
                proof {
                    assert(items@.take(i as int).filter(is_impl()).push(items@[i as int]).map_values(
                        read,
                    ) =~= items@.take(i as int).filter(is_impl()).map_values(read).push(
                        impl_infos_of_item(items@[i as int]),
                    ));
                }
            },
            _ => {},
        }
        i = i + 1;
    }
    proof {
        assert(items@.take(i as int) =~= items@);
    }
    infos
}

/// The tree that is exported for a body that could not be had: an error
/// literal at the span of the definition.
pub open spec fn error_tree(span: HostSpan) -> Expr {
    Expr {
        ty: Ty::Never,
        span: exported_span(span),
        contents: ExprKind::Literal { lit: LitKind::Error(ErrorGuaranteed), neg: false },
    }
}

/// A definition whose body could not be had is exported all the same: the
/// body that stands for it gives the error literal as its tree, and no
/// failure.
pub proof fn lemma_failed_body_is_exported(
    answers: Map<u32, BodyState>,
    owner: BodyOwner,
    body: ExtractedBody,
)
    requires
        extraction_of(answers, owner, body),
        failure_of(answers, owner) is Some,
    ensures
        expr_of(body.thir@, body.root) == Ok::<Expr, Fatal>(error_tree(owner.span)),
{
    assert(body.thir@[0] == error_expr(owner.span));
}

/// Whether `out` is the export of the unit `unit` with the bodies
/// `selection`, under the configuration `options` and with the recorded
/// macro calls `macro_calls`.
///
/// The context holds what was given and the bodies of the unit, each
/// extracted once in the order of the schedule. The items are those of the
/// plan, exported one for one, and the two sets hold exactly what exporting
/// them met; or the export ended with the first failure of the plan.
pub open spec fn is_conversion_of(
    options: Options,
    macro_calls: MacroCalls,
    unit: HostUnit,
    selection: BodySelection,
    out: Conversion,
) -> bool {
    &&& out.state.wf()
    &&& out.state.base.options == options
    &&& out.state.base.macro_infos == macro_calls
    &&& out.state.base.adts == unit.adts
    &&& out.state.base.cached_thirs.order@ == owner_ids(visited(schedule_of(unit.body_owners@)))
    &&& forall|k: int|
        0 <= k < out.state.base.cached_thirs.order@.len() ==> extraction_of(
            unit.thir_bodies@,
            visited(schedule_of(unit.body_owners@))[k],
            #[trigger] out.state.base.cached_thirs.bodies@[out.state.base.cached_thirs.order@[k].index],
        )
    &&& out.failures@ == failures_of(
        unit.thir_bodies@,
        visited(schedule_of(unit.body_owners@)),
    )
    &&& out.impl_infos@ == impl_infos_of(unit.items@)
    &&& match out.items {
        Ok(exported) => {
            let plan = plan_of(macro_calls.records@, options.inline_macro_calls@, unit.items@);
            &&& plan_failure(out.state, unit.bodies, selection, unit.items@, plan) is None
            &&& are_planned_items(
                out.state,
                unit.bodies,
                selection,
                unit.items@,
                plan,
                exported@,
            )
            &&& out.state.base.exported_spans@ == plan_footprint(
                out.state,
                unit.bodies,
                selection,
                unit.items@,
                plan,
            ).spans
            &&& out.state.base.exported_def_ids@ == plan_footprint(
                out.state,
                unit.bodies,
                selection,
                unit.items@,
                plan,
            ).def_ids
        },
        Err(e) => plan_failure(
            out.state,
            unit.bodies,
            selection,
            unit.items@,
            plan_of(macro_calls.records@, options.inline_macro_calls@, unit.items@),
        ) == Some(e),
    }
}

/// Exports a unit: reads every body once, in the safe order, then exports
/// the items with the bodies `selection`, with macro calls in place of what
/// comes from the macros that `options` names.
///
/// A body that cannot be had is reported in `failures` and does not end the
/// export. An inconsistency of the host's representation does: `items` then
/// holds it.
pub fn convert_thir(
    options: Options,
    macro_calls: MacroCalls,
    unit: HostUnit,
    selection: BodySelection,
) -> (out: Conversion)
    requires
        macro_calls.wf(),
    ensures
        is_conversion_of(options, macro_calls, unit, selection, out),
{
    let HostUnit { items, body_owners, thir_bodies, bodies, adts } = unit;
    let mut state = State::new(options, adts);
    state.base.macro_infos = macro_calls;
    let precomputed = precompute_local_thir_bodies(&body_owners, &thir_bodies);
    state.base.cached_thirs = precomputed.bodies;
    let ghost start = state;
    let exported = inline_macro_invocations(&mut state, &bodies, selection, &items);
    let impl_infos = impl_def_ids_to_impled_types_and_bounds(&items);
    proof {
        let plan = plan_of(macro_calls.records@, options.inline_macro_calls@, items@);
        lemma_plan_reads(&start, &state, bodies, selection, items@, plan);
        assert(plan.take(plan.len() as int) =~= plan);
        if exported is Ok {
            let added = plan_footprint(start, bodies, selection, items@, plan);
            assert(Set::<HostSpan>::empty() + added.spans =~= added.spans);
            assert(Set::<DefId>::empty() + added.def_ids =~= added.def_ids);
            assert forall|k: int| 0 <= k < plan.len() implies is_planned_item(
                state,
                bodies,
                selection,
                items@,
                plan[k],
                #[trigger] exported->Ok_0@[k],
            ) by {
                lemma_same_item(&state, &start, bodies, selection, items@, plan[k], exported->Ok_0@[k]);
            }
        }
    }
    Conversion { state, failures: precomputed.failures, impl_infos, items: exported }
}

/// What a plan fails with and what it adds depend on what the context reads
/// as, not on the two sets.
proof fn lemma_plan_reads(
    start: &State,
    now: &State,
    bodies: HostBodies,
    selection: BodySelection,
    items: Seq<HostItem>,
    plan: Seq<Planned>,
)
    requires
        now.reads_as(start),
    ensures
        plan_failure(*now, bodies, selection, items, plan) == plan_failure(
            *start,
            bodies,
            selection,
            items,
            plan,
        ),
        plan_footprint(*now, bodies, selection, items, plan) == plan_footprint(
            *start,
            bodies,
            selection,
            items,
            plan,
        ),
    decreases plan.len(),
{
    if plan.len() > 0 {
        lemma_same_reads(start, now, bodies, selection, items, plan[0]);
        lemma_same_reads(start, now, bodies, selection, items, plan.last());
        lemma_plan_reads(start, now, bodies, selection, items, plan.skip(1));
        lemma_plan_reads(start, now, bodies, selection, items, plan.drop_last());
    }
}

/// What is planned names items of the list only.
proof fn lemma_plan_items_in_range(
    records: Seq<MacroCall>,
    patterns: Seq<Namespace>,
    items: Seq<HostItem>,
    k: int,
)
    requires
        0 <= k < plan_of(records, patterns, items).len(),
    ensures
        planned_item(plan_of(records, patterns, items)[k]) < items.len(),
    decreases items.len(),
{
    if items.len() > 0 {
        let before = plan_of(records, patterns, items.drop_last());
        if k < before.len() {
            lemma_plan_items_in_range(records, patterns, items.drop_last(), k);
        }
    }
}

/// The place in the list of the item that `planned` names.
pub open spec fn planned_item(planned: Planned) -> usize {
    match planned {
        Planned::Translate { item } => item,
        Planned::Invocation { item, .. } => item,
    }
}

/// The text of the diagnostic for `failure`: that of the inconsistency, and
/// the number of the item in which it was met.
pub open spec fn failure_text(failure: ExportFailure) -> Seq<char> {
    message_of(failure.fatal) + " (item "@ + decimal_text(failure.owner.index as nat) + ")"@
}

impl ExportFailure {
    /// The text of the diagnostic: what was met, and in which item.
    pub fn message(&self) -> (text: String)
        ensures
            text@ == failure_text(*self),
    {
        let item = decimal(self.owner.index as u128);
        self.fatal.message().concat(" (item ").concat(item.as_str()).concat(")")
    }
}

/// An item is exported itself exactly if no recorded macro call stands for
/// it: if it lies within the arguments of no recorded call, or only of calls
/// of macros that no configured pattern matches.
pub proof fn lemma_item_exported_unless_substituted(
    records: Seq<MacroCall>,
    patterns: Seq<Namespace>,
    items: Seq<HostItem>,
    i: int,
)
    requires
        0 <= i < items.len(),
        items.len() <= usize::MAX,
    ensures
        plan_of(records, patterns, items).contains(Planned::Translate { item: i as usize })
            <==> substitute_of_item(records, patterns, items[i]) is None,
    decreases items.len(),
{
    let plan = plan_of(records, patterns, items);
    let before = plan_of(records, patterns, items.drop_last());
    let last = (items.len() - 1) as usize;
    let wanted = Planned::Translate { item: i as usize };
    if i < items.len() - 1 {
        lemma_item_exported_unless_substituted(records, patterns, items.drop_last(), i);
        assert(items.drop_last()[i] == items[i]);
        if before.contains(wanted) {
            let k = choose|k: int| 0 <= k < before.len() && before[k] == wanted;
            assert(plan[k] == wanted);
        }
        if plan.contains(wanted) {
            let k = choose|k: int| 0 <= k < plan.len() && plan[k] == wanted;
            if k < before.len() {
                assert(before[k] == wanted);
            }
        }
    } else {
        if substitute_of_item(records, patterns, items[i]) is None {
            assert(plan[plan.len() - 1] == wanted);
        }
        if plan.contains(wanted) {
            let k = choose|k: int| 0 <= k < plan.len() && plan[k] == wanted;
            if k < before.len() {
                lemma_plan_items_in_range(records, patterns, items.drop_last(), k);
            }
        }
    }
}

} // verus!
