use hax_export::options::{Glob, Namespace, NamespaceChunk, Options, Severity};

fn path(segments: &[&str]) -> Vec<String> {
    segments.iter().map(|s| s.to_string()).collect()
}

fn pattern(text: &str) -> Namespace {
    Namespace::from(text.to_string())
}

#[test]
fn chunk_from_star_is_one() {
    assert!(matches!(NamespaceChunk::from("*"), NamespaceChunk::Glob(Glob::One)));
}

#[test]
fn chunk_from_two_stars_is_many() {
    assert!(matches!(NamespaceChunk::from("**"), NamespaceChunk::Glob(Glob::Many)));
}

#[test]
fn chunk_from_name_is_exact() {
    match NamespaceChunk::from("core") {
        NamespaceChunk::Exact(name) => assert_eq!(name, "core"),
        other => panic!("unexpected chunk {:?}", other),
    }
    match NamespaceChunk::from("***") {
        NamespaceChunk::Exact(name) => assert_eq!(name, "***"),
        other => panic!("unexpected chunk {:?}", other),
    }
    match NamespaceChunk::from("") {
        NamespaceChunk::Exact(name) => assert_eq!(name, ""),
        other => panic!("unexpected chunk {:?}", other),
    }
}

#[test]
fn namespace_from_text_drops_empty_pieces() {
    let ns = pattern("::a::*::::**::b:");
    assert_eq!(ns.chunks.len(), 4);
    assert!(matches!(&ns.chunks[0], NamespaceChunk::Exact(n) if n == "a"));
    assert!(matches!(&ns.chunks[1], NamespaceChunk::Glob(Glob::One)));
    assert!(matches!(&ns.chunks[2], NamespaceChunk::Glob(Glob::Many)));
    assert!(matches!(&ns.chunks[3], NamespaceChunk::Exact(n) if n == "b:"));
}

#[test]
fn namespace_from_text_with_three_colons() {
    let ns = pattern("a:::b");
    assert_eq!(ns.chunks.len(), 2);
    assert!(matches!(&ns.chunks[0], NamespaceChunk::Exact(n) if n == "a"));
    assert!(matches!(&ns.chunks[1], NamespaceChunk::Exact(n) if n == ":b"));
}

#[test]
fn namespace_from_empty_text_is_empty() {
    assert_eq!(pattern("").chunks.len(), 0);
    assert_eq!(pattern("::").chunks.len(), 0);
}

#[test]
fn empty_pattern_matches_empty_path_only() {
    assert!(pattern("").matches(&path(&[])));
    assert!(!pattern("").matches(&path(&["a"])));
}

#[test]
fn single_wildcard_takes_exactly_one_segment() {
    let p = pattern("a::*::c");
    assert!(p.matches(&path(&["a", "b", "c"])));
    assert!(!p.matches(&path(&["a", "c"])));
    assert!(!p.matches(&path(&["a", "b", "b", "c"])));
    assert!(!p.matches(&path(&["a", "b", "d"])));
}

#[test]
fn trailing_many_takes_any_rest() {
    let p = pattern("a::**");
    assert!(p.matches(&path(&["a"])));
    assert!(p.matches(&path(&["a", "b"])));
    assert!(p.matches(&path(&["a", "b", "c"])));
    assert!(!p.matches(&path(&[])));
    assert!(!p.matches(&path(&["b", "a"])));
}

#[test]
fn several_many_wildcards_backtrack() {
    let p = pattern("**::b::**::d");
    assert!(p.matches(&path(&["b", "d"])));
    assert!(p.matches(&path(&["a", "b", "c", "d"])));
    assert!(p.matches(&path(&["b", "b", "d", "d"])));
    assert!(!p.matches(&path(&["a", "c", "d"])));
    assert!(!p.matches(&path(&["b", "d", "e"])));
}

#[test]
fn exact_chunks_compare_whole_segments() {
    let p = pattern("core::option");
    assert!(p.matches(&path(&["core", "option"])));
    assert!(!p.matches(&path(&["core", "options"])));
    assert!(!p.matches(&path(&["core"])));
}

#[test]
fn default_options_inline_nothing() {
    let options = Options::default();
    assert!(options.inline_macro_calls.is_empty());
    assert!(!options.downgrade_errors);
}

#[test]
fn errors_are_downgraded_on_request() {
    let mut options = Options::default();
    assert_eq!(options.severity(), Severity::Error);
    options.downgrade_errors = true;
    assert_eq!(options.severity(), Severity::Warning);
}

#[test]
fn a_path_that_matches_is_made_of_one_run_for_each_chunk() {
    // a, then any run, then one segment, then z
    let pattern = Namespace::from("a::**::*::z".to_string());
    let matches = |segments: &[&str]| {
        pattern.matches(&segments.iter().map(|s| s.to_string()).collect::<Vec<String>>())
    };
    assert!(matches(&["a", "m", "z"]));
    assert!(matches(&["a", "k", "l", "m", "z"]));
    assert!(!matches(&["a", "z"]));
    assert!(!matches(&["a", "m", "z", "z2"]));
    assert!(!matches(&["b", "m", "z"]));
}

#[test]
fn two_patterns_one_after_the_other_match_two_paths_one_after_the_other() {
    let joined = Namespace::from("a::*::**::b".to_string());
    let first = Namespace::from("a::*".to_string());
    let second = Namespace::from("**::b".to_string());
    let path = |segments: &[&str]| segments.iter().map(|s| s.to_string()).collect::<Vec<String>>();
    assert!(first.matches(&path(&["a", "x"])));
    assert!(second.matches(&path(&["y", "b"])));
    assert!(joined.matches(&path(&["a", "x", "y", "b"])));
    assert!(second.matches(&path(&["b"])));
    assert!(joined.matches(&path(&["a", "x", "b"])));
    assert!(!joined.matches(&path(&["a", "b"])));
}
