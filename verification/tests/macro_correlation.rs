use hax_export::ids::{HostSpan, Span};
use hax_export::macro_calls::{any_matches, collect_macros, HostMacCall, MacroCall, MacroCalls};
use hax_export::options::Namespace;

fn host(lo: u32, hi: u32) -> HostSpan {
    HostSpan { file: 1, lo, hi, ctxt: 3 }
}

fn at(lo: u32, hi: u32) -> Span {
    Span { file: 1, lo, hi }
}

fn path(segments: &[&str]) -> Vec<String> {
    segments.iter().map(|s| s.to_string()).collect()
}

fn call(lo: u32, hi: u32, segments: &[&str]) -> HostMacCall {
    HostMacCall { span: host(lo, hi), args_span: host(lo + 5, hi - 1), path: path(segments) }
}

fn patterns(texts: &[&str]) -> Vec<Namespace> {
    texts.iter().map(|t| Namespace::from(t.to_string())).collect()
}

#[test]
fn macro_calls_are_recorded_with_their_spans_and_path() {
    let calls = collect_macros(&vec![call(10, 30, &["std", "vec"]), call(40, 60, &["my", "mac"])]);
    assert_eq!(
        calls.records,
        vec![
            MacroCall { call_span: at(10, 30), argument_span: at(15, 29), path: path(&["std", "vec"]) },
            MacroCall { call_span: at(40, 60), argument_span: at(45, 59), path: path(&["my", "mac"]) },
        ]
    );
}

#[test]
fn of_two_calls_at_one_site_the_last_is_kept() {
    let mut other_context = call(10, 30, &["b"]);
    other_context.span.ctxt = 8;
    other_context.args_span = host(12, 20);
    let calls = collect_macros(&vec![call(10, 30, &["a"]), other_context, call(11, 30, &["c"])]);
    assert_eq!(
        calls.records,
        vec![
            MacroCall { call_span: at(10, 30), argument_span: at(12, 20), path: path(&["b"]) },
            MacroCall { call_span: at(11, 30), argument_span: at(16, 29), path: path(&["c"]) },
        ]
    );
}

#[test]
fn a_later_call_takes_the_place_of_the_record_at_its_site() {
    let mut calls = collect_macros(&vec![call(10, 30, &["a"]), call(40, 60, &["b"])]);
    let mut again = call(10, 30, &["z", "y"]);
    again.args_span = host(11, 12);
    calls.record(&again);
    assert_eq!(
        calls.records,
        vec![
            MacroCall { call_span: at(10, 30), argument_span: at(11, 12), path: path(&["z", "y"]) },
            MacroCall { call_span: at(40, 60), argument_span: at(45, 59), path: path(&["b"]) },
        ]
    );
    assert_eq!(calls.find_call(&at(10, 30)), Some(0));
    assert!(calls.recognizes(&at(11, 12)));
    assert!(!calls.recognizes(&at(15, 29)));
}

#[test]
fn recording_a_call_again_changes_nothing() {
    let mut calls = MacroCalls::new();
    calls.record(&call(10, 30, &["a"]));
    let before = calls.clone();
    calls.record(&call(10, 30, &["a"]));
    assert_eq!(calls, before);
}

#[test]
fn calls_are_found_by_their_call_site() {
    let calls = collect_macros(&vec![call(10, 30, &["a"]), call(40, 60, &["b"])]);
    assert_eq!(calls.find_call(&at(40, 60)), Some(1));
    assert_eq!(calls.find_call(&at(10, 30)), Some(0));
    assert_eq!(calls.find_call(&at(10, 31)), None);
    assert_eq!(calls.find_call(&Span { file: 2, lo: 10, hi: 30 }), None);
}

#[test]
fn a_node_within_the_arguments_is_recognized() {
    // recorded at S1 = 10..30 with arguments S2 = 15..29
    let calls = collect_macros(&vec![call(10, 30, &["a", "m"])]);
    assert!(calls.recognizes(&at(15, 29)));
    assert!(calls.recognizes(&at(20, 22)));
    assert!(calls.recognizes(&at(29, 29)));
    assert!(!calls.recognizes(&at(14, 20)));
    assert!(!calls.recognizes(&at(20, 30)));
    assert!(!calls.recognizes(&at(10, 30)));
    assert!(!calls.recognizes(&Span { file: 2, lo: 20, hi: 22 }));
}

#[test]
fn a_recognized_node_is_substituted_only_where_a_pattern_matches() {
    let calls = collect_macros(&vec![call(10, 30, &["a", "m"])]);
    let inside = at(20, 22);
    assert_eq!(calls.substitution_for(&patterns(&["a::m"]), &inside), Some(0));
    assert_eq!(calls.substitution_for(&patterns(&["b::**", "a::*"]), &inside), Some(0));
    assert_eq!(calls.substitution_for(&patterns(&["**"]), &inside), Some(0));
    assert_eq!(calls.substitution_for(&patterns(&["b::m"]), &inside), None);
    assert_eq!(calls.substitution_for(&patterns(&[]), &inside), None);
    assert_eq!(calls.substitution_for(&patterns(&["a::m"]), &at(5, 9)), None);
}

#[test]
fn the_first_record_that_fits_is_taken() {
    // an outer call whose arguments hold an inner call
    let calls = collect_macros(&vec![call(10, 100, &["outer"]), call(20, 40, &["inner"])]);
    let node = at(26, 30);
    assert_eq!(calls.substitution_for(&patterns(&["**"]), &node), Some(0));
    assert_eq!(calls.substitution_for(&patterns(&["inner"]), &node), Some(1));
    assert_eq!(calls.substitution_for(&patterns(&["outer"]), &node), Some(0));
    assert_eq!(calls.substitution_for(&patterns(&["inner"]), &at(50, 60)), None);
}

#[test]
fn any_matches_tries_every_pattern() {
    assert!(any_matches(&patterns(&["x", "a::*"]), &path(&["a", "b"])));
    assert!(!any_matches(&patterns(&["x", "a"]), &path(&["a", "b"])));
    assert!(!any_matches(&patterns(&[]), &path(&[])));
    assert!(any_matches(&patterns(&[""]), &path(&[])));
}
