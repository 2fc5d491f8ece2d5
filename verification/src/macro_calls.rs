//! Telling which parts of the expanded program came from which macro call.
//!
//! Before expansion every macro call is recorded: the span of the whole
//! call, the span of its arguments, and the path of the macro. After
//! expansion a node whose span lies within the arguments of a recorded call
//! is known to come from that call. Where the path of the macro matches one
//! of the configured patterns the call itself is exported in place of what
//! it expands to.

use vstd::prelude::*;
use crate::ids::{exported_span, HostSpan, Span};
use crate::options::{glob_matches, path_view, Namespace};

verus! {

/// A macro call as the surface syntax tree shows it before expansion.
#[derive(Debug, Clone, PartialEq, Eq)]
pub struct HostMacCall {
    /// The whole call.
    pub span: HostSpan,
    /// The tokens between the delimiters.
    pub args_span: HostSpan,
    /// The qualified path of the macro.
    pub path: Vec<String>,
}

/// The record of a macro call.
#[derive(Debug, Clone, PartialEq, Eq)]
pub struct MacroCall {
    pub call_span: Span,
    pub argument_span: Span,
    pub path: Vec<String>,
}

/// The macro calls of a unit, by their call site: one record for each site.
/// They are recorded once, before expansion, and only read afterwards.
#[derive(Debug, Clone, PartialEq, Eq)]
pub struct MacroCalls {
    pub records: Vec<MacroCall>,
}

/// The call spans of `records`, in their order.
pub open spec fn call_spans(records: Seq<MacroCall>) -> Seq<Span> {
    records.map_values(|record: MacroCall| record.call_span)
}

/// Whether `record` is the record of `call`.
pub open spec fn records_call(record: MacroCall, call: HostMacCall) -> bool {
    &&& record.call_span == exported_span(call.span)
    &&& record.argument_span == exported_span(call.args_span)
    &&& record.path@ == call.path@
}

/// The call site of `call`.
pub open spec fn site_of(call: HostMacCall) -> Span {
    exported_span(call.span)
}

/// The call sites of `calls`, in their order.
pub open spec fn sites_of(calls: Seq<HostMacCall>) -> Seq<Span> {
    calls.map_values(|call: HostMacCall| site_of(call))
}

/// The calls among `calls` that have a record: one for each call site, at the
/// place where the site came first, and of the calls at one site the last.
pub open spec fn recorded_calls(calls: Seq<HostMacCall>) -> Seq<HostMacCall>
    decreases calls.len(),
{
    if calls.len() == 0 {
        calls
    } else {
        let before = recorded_calls(calls.drop_last());
        match sites_of(before).index_of_first(site_of(calls.last())) {
            Some(k) => before.update(k, calls.last()),
            None => before.push(calls.last()),
        }
    }
}

/// Whether one of `patterns` matches `path`.
pub open spec fn matches_any(patterns: Seq<Namespace>, path: Seq<String>) -> bool {
    exists|i: int| 0 <= i < patterns.len() && glob_matches(#[trigger] patterns[i]@, path_view(path))
}

/// Whether the call of `record` is exported in place of the node at `span`:
/// the node comes from the call, and the macro is one of those to keep.
pub open spec fn substitutes(record: MacroCall, patterns: Seq<Namespace>, span: Span) -> bool {
    record.argument_span.spec_contains(&span) && matches_any(patterns, record.path@)
}

/// The place of the first record from `from` on whose call is exported in
/// place of the node at `span`.
pub open spec fn substitute_from(
    records: Seq<MacroCall>,
    patterns: Seq<Namespace>,
    span: Span,
    from: nat,
) -> Option<usize>
    decreases records.len() - from,
{
    if from >= records.len() {
        None
    } else if substitutes(records[from as int], patterns, span) {
        Some(from as usize)
    } else {
        substitute_from(records, patterns, span, from + 1)
    }
}

/// The place of the first record whose call is exported in place of the
/// node at `span`.
pub open spec fn substitute_of(records: Seq<MacroCall>, patterns: Seq<Namespace>, span: Span)
    -> Option<usize> {
    substitute_from(records, patterns, span, 0)
}

/// Whether any pattern of `patterns` matches `path`.
pub fn any_matches(patterns: &Vec<Namespace>, path: &Vec<String>) -> (matched: bool)
    ensures
        matched == matches_any(patterns@, path@),
{
    let mut i: usize = 0;
    while i < patterns.len()
        invariant
            i <= patterns.len(),
            forall|k: int| 0 <= k < i ==> !glob_matches(#[trigger] patterns@[k]@, path_view(path@)),
        decreases patterns.len() - i,
    {
        if patterns[i].matches(path) {
            return true;
        }
        i = i + 1;
    }
    false
}

/// Copies a path.
pub fn clone_path(path: &Vec<String>) -> (copy: Vec<String>)
    ensures
        copy@ == path@,
{
    let mut copy: Vec<String> = Vec::new();
    let mut i: usize = 0;
    while i < path.len()
        invariant
            i <= path.len(),
            copy@ == path@.take(i as int),
        decreases path.len() - i,
    {
        copy.push(path[i].clone());
        assert(path@.take(i + 1) =~= path@.take(i as int).push(path@[i as int]));
        i = i + 1;
    }
    assert(path@.take(i as int) =~= path@);
    copy
}

impl MacroCalls {
    /// Whether no two records have the same call site.
    pub open spec fn wf(&self) -> bool {
        call_spans(self.records@).no_duplicates()
    }

    /// No record at all.
    pub fn new() -> (calls: MacroCalls)
        ensures
            calls.wf(),
            calls.records@.len() == 0,
    {
        MacroCalls { records: Vec::new() }
    }

    /// The place of the record of the call at `call_site`.
    pub fn find_call(&self, call_site: &Span) -> (found: Option<usize>)
        ensures
            found is None <==> !call_spans(self.records@).contains(*call_site),
            found matches Some(i) ==> i < self.records@.len() && self.records@[i as int].call_span
                == *call_site && forall|k: int|
                0 <= k < i ==> (#[trigger] self.records@[k]).call_span != *call_site,
    {
        let mut i: usize = 0;
        while i < self.records.len()
            invariant
                i <= self.records.len(),
                forall|k: int| 0 <= k < i ==> (#[trigger] self.records@[k]).call_span != *call_site,
            decreases self.records.len() - i,
        {
            if self.records[i].call_span == *call_site {
                assert(call_spans(self.records@)[i as int] == *call_site);
                return Some(i);
            }
            i = i + 1;
        }
        proof {
            if call_spans(self.records@).contains(*call_site) {
                let k = choose|k: int|
                    0 <= k < call_spans(self.records@).len() && call_spans(self.records@)[k]
                        == *call_site;
                assert(self.records@[k].call_span == *call_site);
            }
        }
        None
    }

    /// Records `call`. Where a call at the same site is recorded already,
    /// `call` takes its place: of two calls at one site the later is kept.
    pub fn record(&mut self, call: &HostMacCall)
        requires
            old(self).wf(),
        ensures
            final(self).wf(),
            match call_spans(old(self).records@).index_of_first(exported_span(call.span)) {
                Some(k) => final(self).records@.len() == old(self).records@.len() && records_call(
                    final(self).records@[k],
                    *call,
                ) && forall|j: int|
                    0 <= j < old(self).records@.len() && j != k ==> #[trigger] final(self).records@[j]
                        == old(self).records@[j],
                None => final(self).records@.drop_last() == old(self).records@
                    && final(self).records@.len() == old(self).records@.len() + 1 && records_call(
                    final(self).records@.last(),
                    *call,
                ),
            },
    {
        let call_span = call.span.exported();
        let argument_span = call.args_span.exported();
        let ghost before = self.records@;
        proof {
            call_spans(before).index_of_first_ensures(call_span);
        }
        match self.find_call(&call_span) {
            Some(i) => {
                proof {
                    let k = call_spans(before).index_of_first(call_span)->Some_0;
                    assert(call_spans(before)[i as int] == before[i as int].call_span);
                    assert(call_spans(before)[k] == before[k].call_span);
                    assert(k == i);
                }
                self.records.set(i, MacroCall { call_span, argument_span, path: clone_path(&call.path) });
                proof {
                    assert(call_spans(self.records@) =~= call_spans(before));
                }
            },
            None => {
                self.records.push(MacroCall { call_span, argument_span, path: clone_path(&call.path) });
                proof {
                    assert(self.records@.drop_last() =~= before);
                    assert(call_spans(self.records@) =~= call_spans(before).push(call_span));
                }
            },
        }
    }

    /// The first recorded call that is exported in place of the node at
    /// `span`: the first whose arguments the node lies within and whose
    /// macro one of `patterns` matches.
    pub fn substitution_for(&self, patterns: &Vec<Namespace>, span: &Span) -> (found: Option<usize>)
        ensures
            found == substitute_of(self.records@, patterns@, *span),
            found is None <==> forall|k: int|
                0 <= k < self.records@.len() ==> !substitutes(
                    #[trigger] self.records@[k],
                    patterns@,
                    *span,
                ),
            found matches Some(i) ==> i < self.records@.len() && substitutes(
                self.records@[i as int],
                patterns@,
                *span,
            ) && forall|k: int|
                0 <= k < i ==> !substitutes(#[trigger] self.records@[k], patterns@, *span),
    {
        let mut i: usize = 0;
        while i < self.records.len()
            invariant
                i <= self.records.len(),
                forall|k: int|
                    0 <= k < i ==> !substitutes(#[trigger] self.records@[k], patterns@, *span),
                substitute_of(self.records@, patterns@, *span) == substitute_from(
                    self.records@,
                    patterns@,
                    *span,
                    i as nat,
                ),
            decreases self.records.len() - i,
        {
            if self.records[i].argument_span.contains(span) && any_matches(
                patterns,
                &self.records[i].path,
            ) {
                return Some(i);
            }
            i = i + 1;
        }
        None
    }

    /// Whether the node at `span` comes from a recorded call: it lies within
    /// the arguments of one.
    pub fn recognizes(&self, span: &Span) -> (known: bool)
        ensures
            known <==> exists|k: int|
                0 <= k < self.records@.len() && (#[trigger] self.records@[k]).argument_span.spec_contains(
                    span,
                ),
    {
        let mut i: usize = 0;
        while i < self.records.len()
            invariant
                i <= self.records.len(),
                forall|k: int|
                    0 <= k < i ==> !(#[trigger] self.records@[k]).argument_span.spec_contains(span),
            decreases self.records.len() - i,
        {
            if self.records[i].argument_span.contains(span) {
                return true;
            }
            i = i + 1;
        }
        false
    }
}

/// Records the macro calls `calls` of a unit, in the order in which the
/// surface syntax tree is walked. Of two calls at one site the last is kept.
pub fn collect_macros(calls: &Vec<HostMacCall>) -> (recorded: MacroCalls)
    ensures
        recorded.wf(),
        recorded.records@.len() == recorded_calls(calls@).len(),
        forall|k: int|
            0 <= k < recorded.records@.len() ==> records_call(
                #[trigger] recorded.records@[k],
                recorded_calls(calls@)[k],
            ),
{
    let mut recorded = MacroCalls::new();
    let mut i: usize = 0;
    proof {
        assert(calls@.take(0) =~= Seq::<HostMacCall>::empty());
    }
    while i < calls.len()
        invariant
            i <= calls.len(),
            recorded.wf(),
            recorded.records@.len() == recorded_calls(calls@.take(i as int)).len(),
            forall|k: int|
                0 <= k < recorded.records@.len() ==> records_call(
                    #[trigger] recorded.records@[k],
                    recorded_calls(calls@.take(i as int))[k],
                ),
        decreases calls.len() - i,
    {
        let ghost before = recorded_calls(calls@.take(i as int));
        let ghost old_records = recorded.records@;
        let ghost site = exported_span(calls@[i as int].span);
        proof {
            assert(calls@.take(i + 1).drop_last() =~= calls@.take(i as int));
            assert(calls@.take(i + 1).last() == calls@[i as int]);
            assert(call_spans(old_records) =~= sites_of(before)) by {
                assert forall|k: int| 0 <= k < old_records.len() implies call_spans(old_records)[k]
                    == sites_of(before)[k] by {
                    assert(records_call(old_records[k], before[k]));
                }
            }
            call_spans(old_records).index_of_first_ensures(site);
        }
        recorded.record(&calls[i]);
        proof {
            let after = recorded_calls(calls@.take(i + 1));
            assert forall|k: int| 0 <= k < recorded.records@.len() implies records_call(
                #[trigger] recorded.records@[k],
                after[k],
            ) by {
                match call_spans(old_records).index_of_first(site) {
                    Some(at) => {
                        assert(after == before.update(at, calls@[i as int]));
                        if k != at {
                            assert(recorded.records@[k] == old_records[k]);
                            assert(records_call(old_records[k], before[k]));
                        }
                    },
                    None => {
                        assert(after == before.push(calls@[i as int]));
                        if k < old_records.len() {
                            assert(recorded.records@.drop_last()[k] == recorded.records@[k]);
                            assert(records_call(old_records[k], before[k]));
                        }
                    },
                }
            }
        }
        i = i + 1;
    }
    proof {
        assert(calls@.take(i as int) =~= calls@);
    }
    recorded
}

/// No two of the calls that have a record are at the same site.
pub proof fn lemma_one_record_per_site(calls: Seq<HostMacCall>)
    ensures
        sites_of(recorded_calls(calls)).no_duplicates(),
    decreases calls.len(),
{
    if calls.len() > 0 {
        let before = recorded_calls(calls.drop_last());
        let last = calls.last();
        lemma_one_record_per_site(calls.drop_last());
        sites_of(before).index_of_first_ensures(site_of(last));
        match sites_of(before).index_of_first(site_of(last)) {
            Some(k) => {
                assert(sites_of(before.update(k, last)) =~= sites_of(before));
            },
            None => {
                assert(sites_of(before.push(last)) =~= sites_of(before).push(site_of(last)));
            },
        }
    }
}

/// Of the calls at one site the last has the record: a call that no later
/// call shares its site with is among the recorded calls.
pub proof fn lemma_later_call_is_kept(calls: Seq<HostMacCall>, j: int)
    requires
        0 <= j < calls.len(),
        forall|l: int| j < l < calls.len() ==> site_of(#[trigger] calls[l]) != site_of(calls[j]),
    ensures
        recorded_calls(calls).contains(calls[j]),
    decreases calls.len(),
{
    let before = recorded_calls(calls.drop_last());
    let last = calls.last();
    sites_of(before).index_of_first_ensures(site_of(last));
    if j == calls.len() - 1 {
        match sites_of(before).index_of_first(site_of(last)) {
            Some(k) => {
                assert(before.update(k, last)[k] == last);
            },
            None => {
                assert(before.push(last)[before.len() as int] == last);
            },
        }
    } else {
        assert forall|l: int| j < l < calls.drop_last().len() implies site_of(
            #[trigger] calls.drop_last()[l],
        ) != site_of(calls.drop_last()[j]) by {
            assert(calls.drop_last()[l] == calls[l]);
        }
        lemma_later_call_is_kept(calls.drop_last(), j);
        let m = choose|m: int| 0 <= m < before.len() && before[m] == calls.drop_last()[j];
        assert(site_of(calls[calls.len() - 1]) != site_of(calls[j]));
        match sites_of(before).index_of_first(site_of(last)) {
            Some(k) => {
                assert(sites_of(before)[k] == site_of(before[k]));
                assert(before.update(k, last)[m] == calls[j]);
            },
            None => {
                assert(before.push(last)[m] == calls[j]);
            },
        }
    }
}

/// The search from `from` on finds the first record from there on whose
/// call is exported in place of the node, and none where there is none.
proof fn lemma_substitute_from(
    records: Seq<MacroCall>,
    patterns: Seq<Namespace>,
    span: Span,
    from: nat,
)
    requires
        records.len() <= usize::MAX,
    ensures
        match substitute_from(records, patterns, span, from) {
            Some(i) => from <= i < records.len() && substitutes(records[i as int], patterns, span)
                && forall|k: int| from <= k < i ==> !substitutes(#[trigger] records[k], patterns, span),
            None => forall|k: int|
                from <= k < records.len() ==> !substitutes(#[trigger] records[k], patterns, span),
        },
    decreases records.len() - from,
{
    if from < records.len() && !substitutes(records[from as int], patterns, span) {
        lemma_substitute_from(records, patterns, span, from + 1);
    }
}

/// A recorded macro call is exported in place of a node only where the node
/// lies within the arguments of the call and a configured pattern matches the
/// path of the macro; and where that holds of some recorded call, the first
/// such call is exported in place of the node.
pub proof fn lemma_substitution(records: Seq<MacroCall>, patterns: Seq<Namespace>, span: Span)
    requires
        records.len() <= usize::MAX,
    ensures
        match substitute_of(records, patterns, span) {
            Some(i) => i < records.len() && records[i as int].argument_span.spec_contains(&span)
                && matches_any(patterns, records[i as int].path@) && forall|k: int|
                0 <= k < i ==> !substitutes(#[trigger] records[k], patterns, span),
            None => forall|k: int|
                0 <= k < records.len() ==> !(#[trigger] records[k]).argument_span.spec_contains(
                    &span,
                ) || !matches_any(patterns, records[k].path@),
        },
{
    lemma_substitute_from(records, patterns, span, 0);
}

} // verus!
