//! The context of one export.
//!
//! It holds what every translation reads: the configuration, the recorded
//! macro calls, the bodies that were extracted, and what the host says of the
//! types of the program. And it holds the two sets that grow while the unit
//! is translated: the spans and the definitions that were met. These are the
//! only part that a translation changes, and it only ever adds to them.

use vstd::prelude::*;
use crate::host::AdtDef;
use crate::ids::{exported_span, DefId, HostSpan, Span};
use crate::macro_calls::MacroCalls;
use crate::options::Options;
use crate::scheduler::BodyCache;
use crate::sets::{DefIdSet, SpanSet};

verus! {

/// The parts of the context.
#[derive(Debug)]
pub struct Base {
    pub options: Options,
    pub macro_infos: MacroCalls,
    pub cached_thirs: BodyCache,
    pub exported_spans: SpanSet,
    pub exported_def_ids: DefIdSet,
    /// What the host says of the structs, enums and unions of the program.
    pub adts: Vec<AdtDef>,
}

/// The context of one export.
#[derive(Debug)]
pub struct State {
    pub base: Base,
}

/// What a translation adds to the two sets.
pub struct Footprint {
    pub spans: Set<HostSpan>,
    pub def_ids: Set<DefId>,
}

impl Footprint {
    /// Nothing.
    pub open spec fn none() -> Footprint {
        Footprint { spans: Set::empty(), def_ids: Set::empty() }
    }

    /// One span.
    pub open spec fn span(span: HostSpan) -> Footprint {
        Footprint { spans: set![span], def_ids: Set::empty() }
    }

    /// One definition.
    pub open spec fn def_id(id: DefId) -> Footprint {
        Footprint { spans: Set::empty(), def_ids: set![id] }
    }

    /// What this and `other` add together.
    pub open spec fn and(self, other: Footprint) -> Footprint {
        Footprint { spans: self.spans + other.spans, def_ids: self.def_ids + other.def_ids }
    }
}

impl State {
    /// Whether the caches of the context are in order.
    pub open spec fn wf(&self) -> bool {
        &&& self.base.macro_infos.wf()
        &&& self.base.cached_thirs.wf()
        &&& self.base.exported_spans.wf()
        &&& self.base.exported_def_ids.wf()
    }

    /// Whether this context reads the same as `before`: configuration,
    /// macro calls, bodies and types are the same.
    pub open spec fn reads_as(&self, before: &State) -> bool {
        &&& self.base.options == before.base.options
        &&& self.base.macro_infos == before.base.macro_infos
        &&& self.base.cached_thirs == before.base.cached_thirs
        &&& self.base.adts == before.base.adts
    }

    /// Whether this context came from `before` by adding to the two sets:
    /// nothing else changed, and nothing left them.
    pub open spec fn extends(&self, before: &State) -> bool {
        &&& self.wf()
        &&& self.reads_as(before)
        &&& before.base.exported_spans@.subset_of(self.base.exported_spans@)
        &&& before.base.exported_def_ids@.subset_of(self.base.exported_def_ids@)
    }

    /// Whether this context came from `before` by adding exactly `added` to
    /// the two sets.
    pub open spec fn grown_by(&self, before: &State, added: Footprint) -> bool {
        &&& self.wf()
        &&& self.reads_as(before)
        &&& self.base.exported_spans@ == before.base.exported_spans@ + added.spans
        &&& self.base.exported_def_ids@ == before.base.exported_def_ids@ + added.def_ids
    }

    /// The context at the start of an export: the configuration and the
    /// types are given, no macro call is recorded, no body is extracted, and
    /// nothing was met.
    pub fn new(options: Options, adts: Vec<AdtDef>) -> (state: State)
        ensures
            state.wf(),
            state.base.options == options,
            state.base.adts == adts,
            state.base.macro_infos.records@.len() == 0,
            state.base.cached_thirs.order@.len() == 0,
            state.base.exported_spans@ == Set::<HostSpan>::empty(),
            state.base.exported_def_ids@ == Set::<DefId>::empty(),
    {
        State {
            base: Base {
                options,
                macro_infos: MacroCalls::new(),
                cached_thirs: BodyCache::new(),
                exported_spans: SpanSet::new(),
                exported_def_ids: DefIdSet::new(),
                adts,
            },
        }
    }

    /// Exports a span, and remembers the host span it came from.
    pub fn translate_span(&mut self, span: HostSpan) -> (exported: Span)
        requires
            old(self).wf(),
        ensures
            exported == exported_span(span),
            final(self).grown_by(old(self), Footprint::span(span)),
    {
        self.base.exported_spans.insert(span);
        proof {
            assert(old(self).base.exported_spans@.insert(span) =~= old(self).base.exported_spans@
                + set![span]);
            assert(old(self).base.exported_def_ids@ =~= old(self).base.exported_def_ids@
                + Set::<DefId>::empty());
        }
        span.exported()
    }

    /// Exports the identifier of a definition, and remembers that it was met.
    pub fn translate_def_id(&mut self, id: DefId) -> (exported: DefId)
        requires
            old(self).wf(),
        ensures
            exported == id,
            final(self).grown_by(old(self), Footprint::def_id(id)),
    {
        self.base.exported_def_ids.insert(id);
        proof {
            assert(old(self).base.exported_def_ids@.insert(id) =~= old(self).base.exported_def_ids@
                + set![id]);
            assert(old(self).base.exported_spans@ =~= old(self).base.exported_spans@
                + Set::<HostSpan>::empty());
        }
        id
    }
}

/// Growing twice is growing once by both.
pub proof fn lemma_grown_twice(
    first: &State,
    second: &State,
    third: &State,
    a: Footprint,
    b: Footprint,
)
    requires
        second.grown_by(first, a),
        third.grown_by(second, b),
    ensures
        third.grown_by(first, a.and(b)),
{
    assert(first.base.exported_spans@ + a.spans + b.spans =~= first.base.exported_spans@ + (a.spans
        + b.spans));
    assert(first.base.exported_def_ids@ + a.def_ids + b.def_ids =~= first.base.exported_def_ids@
        + (a.def_ids + b.def_ids));
}

/// A context that has grown extends the one it came from, and not growing is
/// growing by nothing.
pub proof fn lemma_grown_extends(before: &State, after: &State, added: Footprint)
    requires
        after.grown_by(before, added),
    ensures
        after.extends(before),
{
}

/// A context has grown from itself by nothing.
pub proof fn lemma_grown_by_none(state: &State)
    requires
        state.wf(),
    ensures
        state.grown_by(state, Footprint::none()),
{
    assert(state.base.exported_spans@ + Set::<HostSpan>::empty() =~= state.base.exported_spans@);
    assert(state.base.exported_def_ids@ + Set::<DefId>::empty() =~= state.base.exported_def_ids@);
}

/// Extending is transitive.
pub proof fn lemma_extends_twice(first: &State, second: &State, third: &State)
    requires
        second.extends(first),
        third.extends(second),
    ensures
        third.extends(first),
{
}

} // verus!
