use hax_export::host::AdtDef;
use hax_export::ids::{DefId, HostSpan, Span};
use hax_export::options::Options;
use hax_export::sets::{DefIdSet, SpanSet};
use hax_export::state::State;

fn span(file: u32, lo: u32, hi: u32, ctxt: u32) -> HostSpan {
    HostSpan { file, lo, hi, ctxt }
}

#[test]
fn span_set_starts_empty() {
    let set = SpanSet::new();
    assert_eq!(set.len(), 0);
    assert!(!set.contains(span(0, 0, 0, 0)));
}

#[test]
fn span_set_insert_is_idempotent() {
    let mut set = SpanSet::new();
    assert!(set.insert(span(1, 2, 3, 4)));
    assert!(!set.insert(span(1, 2, 3, 4)));
    assert_eq!(set.len(), 1);
    assert!(set.contains(span(1, 2, 3, 4)));
    assert_eq!(set.items, vec![span(1, 2, 3, 4)]);
}

#[test]
fn span_set_tells_every_field_apart() {
    let mut set = SpanSet::new();
    let spans = [
        span(1, 2, 3, 4),
        span(2, 2, 3, 4),
        span(1, 3, 3, 4),
        span(1, 2, 4, 4),
        span(1, 2, 3, 5),
        span(4, 3, 2, 1),
        span(u32::MAX, u32::MAX, u32::MAX, u32::MAX),
        span(0, 0, 0, 1),
        span(0, 0, 1, 0),
        span(0, 1, 0, 0),
        span(1, 0, 0, 0),
    ];
    for s in spans {
        assert!(!set.contains(s));
        assert!(set.insert(s));
    }
    assert_eq!(set.len(), spans.len());
    for s in spans {
        assert!(set.contains(s));
        assert!(!set.insert(s));
    }
    assert_eq!(set.items, spans.to_vec());
}

#[test]
fn def_id_set_insert_is_idempotent_and_keeps_the_order() {
    let mut set = DefIdSet::new();
    let a = DefId { krate: 0, index: 1 };
    let b = DefId { krate: 1, index: 0 };
    let c = DefId { krate: u32::MAX, index: u32::MAX };
    assert!(set.insert(b));
    assert!(set.insert(a));
    assert!(!set.insert(b));
    assert!(set.insert(c));
    assert!(!set.insert(a));
    assert_eq!(set.len(), 3);
    assert_eq!(set.items, vec![b, a, c]);
    assert!(set.contains(a) && set.contains(b) && set.contains(c));
    assert!(!set.contains(DefId { krate: 1, index: 1 }));
}

#[test]
fn the_order_of_insertion_does_not_show_in_membership() {
    let a = DefId { krate: 0, index: 1 };
    let b = DefId { krate: 0, index: 2 };
    let mut one = DefIdSet::new();
    one.insert(a);
    one.insert(b);
    let mut other = DefIdSet::new();
    other.insert(b);
    other.insert(a);
    for id in [a, b, DefId { krate: 0, index: 3 }] {
        assert_eq!(one.contains(id), other.contains(id));
    }
    assert_eq!(one.len(), other.len());
}

#[test]
fn span_containment() {
    let outer = Span { file: 1, lo: 10, hi: 20 };
    assert!(outer.contains(&Span { file: 1, lo: 10, hi: 20 }));
    assert!(outer.contains(&Span { file: 1, lo: 12, hi: 15 }));
    assert!(outer.contains(&Span { file: 1, lo: 20, hi: 20 }));
    assert!(!outer.contains(&Span { file: 1, lo: 9, hi: 15 }));
    assert!(!outer.contains(&Span { file: 1, lo: 12, hi: 21 }));
    assert!(!outer.contains(&Span { file: 2, lo: 12, hi: 15 }));
}

#[test]
fn a_new_context_has_met_nothing() {
    let state = State::new(Options::default(), Vec::<AdtDef>::new());
    assert_eq!(state.base.exported_spans.len(), 0);
    assert_eq!(state.base.exported_def_ids.len(), 0);
    assert_eq!(state.base.cached_thirs.len(), 0);
    assert!(state.base.macro_infos.records.is_empty());
    assert!(state.base.adts.is_empty());
    assert!(state.base.options.inline_macro_calls.is_empty());
}

#[test]
fn translating_a_span_records_the_host_span() {
    let mut state = State::new(Options::default(), vec![]);
    let host = span(3, 10, 20, 9);
    assert_eq!(state.translate_span(host), Span { file: 3, lo: 10, hi: 20 });
    assert_eq!(state.translate_span(host), Span { file: 3, lo: 10, hi: 20 });
    assert_eq!(state.base.exported_spans.items, vec![host]);
    assert_eq!(state.translate_span(span(3, 10, 20, 8)), Span { file: 3, lo: 10, hi: 20 });
    assert_eq!(state.base.exported_spans.len(), 2);
    assert_eq!(state.base.exported_def_ids.len(), 0);
}

#[test]
fn translating_a_def_id_records_it() {
    let mut state = State::new(Options::default(), vec![]);
    let id = DefId { krate: 2, index: 5 };
    assert_eq!(state.translate_def_id(id), id);
    assert_eq!(state.translate_def_id(id), id);
    assert_eq!(state.base.exported_def_ids.items, vec![id]);
    assert_eq!(state.base.exported_spans.len(), 0);
}

#[test]
fn the_dummy_span_is_all_zero() {
    assert_eq!(HostSpan::dummy(), span(0, 0, 0, 0));
}
