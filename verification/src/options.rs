//! Static configuration of an export: namespace patterns and error policy.
//!
//! A namespace pattern is a `::`-separated list of chunks. A chunk is an exact
//! name, `*` (one path segment) or `**` (any number of path segments).

use vstd::prelude::*;

verus! {

/// A wildcard inside a namespace pattern.
#[derive(Debug, Clone, Copy, PartialEq, Eq, Structural)]
pub enum Glob {
    /// `*`: exactly one path segment.
    One,
    /// `**`: any number of path segments, none included.
    Many,
}

/// One component of a namespace pattern.
#[derive(Debug, Clone)]
pub enum NamespaceChunk {
    Glob(Glob),
    Exact(String),
}

/// The mathematical value of a [`NamespaceChunk`].
pub enum ChunkView {
    Glob(Glob),
    Exact(Seq<char>),
}

impl View for NamespaceChunk {
    type V = ChunkView;

    open spec fn view(&self) -> ChunkView {
        match self {
            NamespaceChunk::Glob(g) => ChunkView::Glob(*g),
            NamespaceChunk::Exact(name) => ChunkView::Exact(name@),
        }
    }
}

/// A namespace pattern.
#[derive(Debug, Clone)]
pub struct Namespace {
    pub chunks: Vec<NamespaceChunk>,
}

impl View for Namespace {
    type V = Seq<ChunkView>;

    open spec fn view(&self) -> Seq<ChunkView> {
        self.chunks@.map_values(|c: NamespaceChunk| c@)
    }
}

/// The segments of a qualified path, each as its characters.
pub open spec fn path_view(path: Seq<String>) -> Seq<Seq<char>> {
    path.map_values(|s: String| s@)
}

/// Whether `pattern` matches `path`.
///
/// The empty pattern matches the empty path only. An exact chunk matches one
/// segment equal to it, `*` matches any one segment, and `**` matches any run
/// of segments, the empty run included.
pub open spec fn glob_matches(pattern: Seq<ChunkView>, path: Seq<Seq<char>>) -> bool
    decreases pattern.len(), path.len(),
{
    if pattern.len() == 0 {
        path.len() == 0
    } else {
        match pattern[0] {
            ChunkView::Exact(name) => path.len() > 0 && name == path[0] && glob_matches(
                pattern.skip(1),
                path.skip(1),
            ),
            ChunkView::Glob(Glob::One) => path.len() > 0 && glob_matches(
                pattern.skip(1),
                path.skip(1),
            ),
            ChunkView::Glob(Glob::Many) => (path.len() > 0 && glob_matches(pattern, path.skip(1)))
                || glob_matches(pattern.skip(1), path),
        }
    }
}

/// Whether the chunk `chunk` accepts the single segment `segment`.
pub open spec fn chunk_accepts(chunk: ChunkView, segment: Seq<char>) -> bool {
    match chunk {
        ChunkView::Exact(name) => name == segment,
        ChunkView::Glob(_) => true,
    }
}

/// Whether no chunk of `pattern` is `**`.
pub open spec fn has_no_many(pattern: Seq<ChunkView>) -> bool {
    forall|i: int| 0 <= i < pattern.len() ==> pattern[i] != ChunkView::Glob(Glob::Many)
}

/// Whether the first `pattern.len()` segments of `path` are accepted one by one.
pub open spec fn accepts_pointwise(pattern: Seq<ChunkView>, path: Seq<Seq<char>>) -> bool {
    &&& pattern.len() <= path.len()
    &&& forall|i: int| 0 <= i < pattern.len() ==> chunk_accepts(#[trigger] pattern[i], path[i])
}

/// The chunk that a segment of pattern text stands for.
pub open spec fn chunk_of(text: Seq<char>) -> ChunkView {
    if text == seq!['*'] {
        ChunkView::Glob(Glob::One)
    } else if text == seq!['*', '*'] {
        ChunkView::Glob(Glob::Many)
    } else {
        ChunkView::Exact(text)
    }
}

/// Whether the separator `::` starts at position `i` of `text`.
pub open spec fn separator_at(text: Seq<char>, i: int) -> bool {
    0 <= i && i + 1 < text.len() && text[i] == ':' && text[i + 1] == ':'
}

/// The segments of `text` from `start` on, when no separator starts in
/// `start..i`: separators are found from left to right and do not overlap.
pub open spec fn segments_from(text: Seq<char>, start: int, i: int) -> Seq<Seq<char>>
    decreases text.len() - i,
{
    if i >= text.len() {
        seq![text.subrange(start, text.len() as int)]
    } else if separator_at(text, i) {
        seq![text.subrange(start, i)] + segments_from(text, i + 2, i + 2)
    } else {
        segments_from(text, start, i + 1)
    }
}

/// The pieces of `text` between its `::` separators, empty pieces included.
pub open spec fn split_segments(text: Seq<char>) -> Seq<Seq<char>> {
    segments_from(text, 0, 0)
}

/// The pattern that `text` denotes: its non-empty segments, each read as a chunk.
pub open spec fn namespace_of(text: Seq<char>) -> Seq<ChunkView> {
    split_segments(text).filter(|s: Seq<char>| s.len() > 0).map_values(|s: Seq<char>| chunk_of(s))
}

impl NamespaceChunk {
    /// Reads one segment of pattern text: `*`, `**`, or a name.
    pub fn from(s: &str) -> (chunk: Self)
        ensures
            chunk@ == chunk_of(s@),
    {
        let n: usize = s.unicode_len();
        if n == 1 && s.get_char(0) == '*' {
            assert(s@ =~= seq!['*']);
            NamespaceChunk::Glob(Glob::One)
        } else if n == 2 && s.get_char(0) == '*' && s.get_char(1) == '*' {
            assert(s@ =~= seq!['*', '*']);
            NamespaceChunk::Glob(Glob::Many)
        } else {
            assert(s@ != seq!['*']);
            assert(s@ != seq!['*', '*']);
            NamespaceChunk::Exact(String::from_str(s))
        }
    }
}

/// The chunks of the non-empty segments of `text` from `start` on, when no
/// separator starts in `start..i`.
spec fn chunks_from(text: Seq<char>, start: int, i: int) -> Seq<ChunkView> {
    segments_from(text, start, i).filter(|s: Seq<char>| s.len() > 0).map_values(
        |s: Seq<char>| chunk_of(s),
    )
}

/// The chunk of one segment, or nothing where the segment is empty.
spec fn chunk_of_segment(segment: Seq<char>) -> Seq<ChunkView> {
    if segment.len() > 0 {
        seq![chunk_of(segment)]
    } else {
        Seq::empty()
    }
}

/// One segment gives its chunk, or nothing where it is empty.
proof fn lemma_chunks_of_single(segment: Seq<char>)
    ensures
        seq![segment].filter(|s: Seq<char>| s.len() > 0).map_values(|s: Seq<char>| chunk_of(s))
            == chunk_of_segment(segment),
{
    let keep = |s: Seq<char>| s.len() > 0;
    let one = seq![segment];
    reveal_with_fuel(Seq::filter, 2);
    assert(one.drop_last() =~= Seq::<Seq<char>>::empty());
    assert(one.drop_last().filter(keep) =~= Seq::<Seq<char>>::empty());
    assert(one.last() == segment);
    if segment.len() > 0 {
        assert(one.filter(keep) =~= seq![segment]);
    } else {
        assert(one.filter(keep) =~= Seq::<Seq<char>>::empty());
    }
    assert(one.filter(keep).map_values(|s: Seq<char>| chunk_of(s)) =~= chunk_of_segment(segment));
}

/// The chunks from a position on, by what stands at the position: the end
/// of the text, a separator, or another character.
proof fn lemma_chunks_step(text: Seq<char>, start: int, i: int)
    requires
        0 <= start <= i,
    ensures
        i >= text.len() ==> chunks_from(text, start, i) == chunk_of_segment(
            text.subrange(start, text.len() as int),
        ),
        i < text.len() && separator_at(text, i) ==> chunks_from(text, start, i) == chunk_of_segment(
            text.subrange(start, i),
        ) + chunks_from(text, i + 2, i + 2),
        i < text.len() && !separator_at(text, i) ==> chunks_from(text, start, i) == chunks_from(
            text,
            start,
            i + 1,
        ),
{
    let keep = |s: Seq<char>| s.len() > 0;
    let read = |s: Seq<char>| chunk_of(s);
    if i >= text.len() {
        lemma_chunks_of_single(text.subrange(start, text.len() as int));
    } else if separator_at(text, i) {
        let head = seq![text.subrange(start, i)];
        let tail = segments_from(text, i + 2, i + 2);
        Seq::filter_distributes_over_add(head, tail, keep);
        lemma_chunks_of_single(text.subrange(start, i));
        assert((head.filter(keep) + tail.filter(keep)).map_values(read) =~= head.filter(
            keep,
        ).map_values(read) + tail.filter(keep).map_values(read));
    }
}

impl Namespace {
    /// Reads a pattern from its text: the text is cut at each `::`, empty
    /// pieces are dropped, and each remaining piece is read as a chunk.
    pub fn from(s: String) -> (namespace: Self)
        ensures
            namespace@ == namespace_of(s@),
    {
        let text: &str = s.as_str();
        let n: usize = text.unicode_len();
        let mut chunks: Vec<NamespaceChunk> = Vec::new();
        let mut start: usize = 0;
        let mut i: usize = 0;
        let ghost read = |c: NamespaceChunk| c@;
        assert(chunks@.map_values(read) =~= Seq::<ChunkView>::empty());
        while i < n
            invariant
                n == text@.len(),
                text@ == s@,
                start <= i <= n,
                read == (|c: NamespaceChunk| c@),
                namespace_of(s@) == chunks@.map_values(read) + chunks_from(
                    text@,
                    start as int,
                    i as int,
                ),
            decreases n - i,
        {
            proof {
                lemma_chunks_step(text@, start as int, i as int);
            }
            if i + 1 < n && text.get_char(i) == ':' && text.get_char(i + 1) == ':' {
                if start < i {
                    let piece: &str = text.substring_char(start, i);
                    let chunk = NamespaceChunk::from(piece);
                    proof {
                        assert(chunks@.push(chunk).map_values(read) =~= chunks@.map_values(read)
                            + chunk_of_segment(text@.subrange(start as int, i as int)));
                    }
                    chunks.push(chunk);
                }
                i = i + 2;
                start = i;
            } else {
                i = i + 1;
            }
        }
        proof {
            lemma_chunks_step(text@, start as int, i as int);
        }
        if start < n {
            let piece: &str = text.substring_char(start, n);
            let chunk = NamespaceChunk::from(piece);
            proof {
                assert(chunks@.push(chunk).map_values(read) =~= chunks@.map_values(read)
                    + chunk_of_segment(text@.subrange(start as int, n as int)));
            }
            chunks.push(chunk);
        }
        Namespace { chunks }
    }

    /// Whether this pattern matches the qualified path `path`.
    pub fn matches(&self, path: &Vec<String>) -> (matched: bool)
        ensures
            matched == glob_matches(self@, path_view(path@)),
    {
        proof {
            assert(self@.skip(0) =~= self@);
            assert(path_view(path@).skip(0) =~= path_view(path@));
        }
        matches_from(&self.chunks, 0, path, 0)
    }
}

/// Matches the chunks from `i` on against the segments from `j` on. At `**`
/// it first tries to take one more segment, then to take none.
fn matches_from(pattern: &Vec<NamespaceChunk>, i: usize, path: &Vec<String>, j: usize) -> (matched:
    bool)
    requires
        i <= pattern.len(),
        j <= path.len(),
    ensures
        matched == glob_matches(
            pattern@.map_values(|c: NamespaceChunk| c@).skip(i as int),
            path_view(path@).skip(j as int),
        ),
    decreases pattern.len() - i, path.len() - j,
{
    let ghost chunks = pattern@.map_values(|c: NamespaceChunk| c@);
    let ghost segments = path_view(path@);
    proof {
        if i < pattern.len() {
            assert(chunks.skip(i as int).skip(1) =~= chunks.skip(i + 1));
        }
        if j < path.len() {
            assert(segments.skip(j as int).skip(1) =~= segments.skip(j + 1));
        }
    }
    if i == pattern.len() {
        j == path.len()
    } else {
        match &pattern[i] {
            NamespaceChunk::Exact(name) => {
                if j < path.len() {
                    let same: bool = *name == path[j];
                    same && matches_from(pattern, i + 1, path, j + 1)
                } else {
                    false
                }
            },
            NamespaceChunk::Glob(Glob::One) => {
                j < path.len() && matches_from(pattern, i + 1, path, j + 1)
            },
            NamespaceChunk::Glob(Glob::Many) => {
                (j < path.len() && matches_from(pattern, i, path, j + 1)) || matches_from(
                    pattern,
                    i + 1,
                    path,
                    j,
                )
            },
        }
    }
}

/// `**` alone matches every path.
pub proof fn lemma_many_matches_every_path(path: Seq<Seq<char>>)
    ensures
        glob_matches(seq![ChunkView::Glob(Glob::Many)], path),
    decreases path.len(),
{
    let pattern = seq![ChunkView::Glob(Glob::Many)];
    assert(pattern[0] == ChunkView::Glob(Glob::Many));
    if path.len() > 0 {
        lemma_many_matches_every_path(path.skip(1));
    } else {
        assert(glob_matches(pattern.skip(1), path));
    }
}

/// Whether the chunk `chunk` takes the run `run` of segments: a name takes
/// the one segment equal to it, `*` takes any one segment, and `**` takes
/// any run.
pub open spec fn chunk_takes(chunk: ChunkView, run: Seq<Seq<char>>) -> bool {
    match chunk {
        ChunkView::Glob(Glob::Many) => true,
        _ => run.len() == 1 && chunk_accepts(chunk, run[0]),
    }
}

/// A pattern of one chunk matches exactly the runs that the chunk takes.
pub proof fn lemma_matches_one_chunk(chunk: ChunkView, run: Seq<Seq<char>>)
    ensures
        glob_matches(seq![chunk], run) <==> chunk_takes(chunk, run),
{
    let pattern = seq![chunk];
    assert(pattern[0] == chunk);
    assert(pattern.skip(1) =~= Seq::<ChunkView>::empty());
    if chunk == ChunkView::Glob(Glob::Many) {
        lemma_many_matches_every_path(run);
    } else if run.len() > 0 {
        assert(glob_matches(pattern.skip(1), run.skip(1)) <==> run.skip(1).len() == 0);
    }
}

/// Where two patterns match two paths, the patterns one after the other
/// match the paths one after the other.
pub proof fn lemma_matches_joined(
    first: Seq<ChunkView>,
    second: Seq<ChunkView>,
    head: Seq<Seq<char>>,
    tail: Seq<Seq<char>>,
)
    requires
        glob_matches(first, head),
        glob_matches(second, tail),
    ensures
        glob_matches(first + second, head + tail),
    decreases first.len(), head.len(),
{
    let pattern = first + second;
    let path = head + tail;
    if first.len() == 0 {
        assert(pattern =~= second);
        assert(path =~= tail);
    } else {
        assert(pattern[0] == first[0]);
        assert(pattern.skip(1) =~= first.skip(1) + second);
        if head.len() > 0 {
            assert(path[0] == head[0]);
            assert(path.skip(1) =~= head.skip(1) + tail);
        }
        match first[0] {
            ChunkView::Glob(Glob::Many) => {
                if head.len() > 0 && glob_matches(first, head.skip(1)) {
                    lemma_matches_joined(first, second, head.skip(1), tail);
                } else {
                    lemma_matches_joined(first.skip(1), second, head, tail);
                }
            },
            _ => {
                lemma_matches_joined(first.skip(1), second, head.skip(1), tail);
            },
        }
    }
}

/// Where two patterns one after the other match a path, the path can be cut
/// in two so that the first pattern matches what stands before the cut and
/// the second what stands after it. With the two laws above: a pattern
/// matches a path exactly where the path is made of runs of segments, one
/// run for each chunk in their order, each taken by its chunk.
pub proof fn lemma_matches_cut(first: Seq<ChunkView>, second: Seq<ChunkView>, path: Seq<Seq<char>>)
    -> (cut: int)
    requires
        glob_matches(first + second, path),
    ensures
        0 <= cut <= path.len(),
        glob_matches(first, path.take(cut)),
        glob_matches(second, path.skip(cut)),
    decreases first.len(), path.len(),
{
    let pattern = first + second;
    if first.len() == 0 {
        assert(pattern =~= second);
        assert(path.skip(0) =~= path);
        assert(path.take(0).len() == 0);
        0
    } else {
        assert(pattern[0] == first[0]);
        assert(pattern.skip(1) =~= first.skip(1) + second);
        match first[0] {
            ChunkView::Glob(Glob::Many) => {
                if path.len() > 0 && glob_matches(pattern, path.skip(1)) {
                    let after = lemma_matches_cut(first, second, path.skip(1));
                    assert(path.take(after + 1).skip(1) =~= path.skip(1).take(after));
                    assert(path.skip(after + 1) =~= path.skip(1).skip(after));
                    after + 1
                } else {
                    lemma_matches_cut(first.skip(1), second, path)
                }
            },
            _ => {
                let after = lemma_matches_cut(first.skip(1), second, path.skip(1));
                assert(path.take(after + 1).skip(1) =~= path.skip(1).take(after));
                assert(path.take(after + 1)[0] == path[0]);
                assert(path.skip(after + 1) =~= path.skip(1).skip(after));
                after + 1
            },
        }
    }
}

/// A pattern without `**` matches exactly the paths of its own length whose
/// segments its chunks accept one by one.
pub proof fn lemma_matches_without_many(pattern: Seq<ChunkView>, path: Seq<Seq<char>>)
    requires
        has_no_many(pattern),
    ensures
        glob_matches(pattern, path) <==> pattern.len() == path.len() && accepts_pointwise(
            pattern,
            path,
        ),
    decreases pattern.len(),
{
    if pattern.len() > 0 {
        let rest = pattern.skip(1);
        assert(has_no_many(rest)) by {
            assert forall|i: int| 0 <= i < rest.len() implies rest[i] != ChunkView::Glob(
                Glob::Many,
            ) by {
                assert(rest[i] == pattern[i + 1]);
            }
        }
        assert(pattern[0] != ChunkView::Glob(Glob::Many));
        if path.len() > 0 {
            let tail = path.skip(1);
            lemma_matches_without_many(rest, tail);
            if accepts_pointwise(rest, tail) && chunk_accepts(pattern[0], path[0]) && rest.len()
                == tail.len() {
                assert forall|i: int| 0 <= i < pattern.len() implies chunk_accepts(
                    #[trigger] pattern[i],
                    path[i],
                ) by {
                    if i > 0 {
                        assert(pattern[i] == rest[i - 1]);
                        assert(path[i] == tail[i - 1]);
                    }
                }
            }
            if pattern.len() == path.len() && accepts_pointwise(pattern, path) {
                assert forall|i: int| 0 <= i < rest.len() implies chunk_accepts(
                    #[trigger] rest[i],
                    tail[i],
                ) by {
                    assert(rest[i] == pattern[i + 1]);
                    assert(tail[i] == path[i + 1]);
                    assert(chunk_accepts(pattern[i + 1], path[i + 1]));
                }
                assert(chunk_accepts(pattern[0], path[0]));
            }
        }
    }
}

/// A pattern without `**`, followed by one `**`, matches exactly the paths
/// whose first segments its chunks accept one by one: what follows is free.
pub proof fn lemma_matches_trailing_many(prefix: Seq<ChunkView>, path: Seq<Seq<char>>)
    requires
        has_no_many(prefix),
    ensures
        glob_matches(prefix.push(ChunkView::Glob(Glob::Many)), path) <==> accepts_pointwise(
            prefix,
            path,
        ),
    decreases prefix.len(),
{
    let pattern = prefix.push(ChunkView::Glob(Glob::Many));
    if prefix.len() == 0 {
        assert(pattern =~= seq![ChunkView::Glob(Glob::Many)]);
        lemma_many_matches_every_path(path);
    } else {
        let rest = prefix.skip(1);
        assert(pattern.skip(1) =~= rest.push(ChunkView::Glob(Glob::Many)));
        assert(pattern[0] == prefix[0]);
        assert(prefix[0] != ChunkView::Glob(Glob::Many));
        assert(has_no_many(rest)) by {
            assert forall|i: int| 0 <= i < rest.len() implies rest[i] != ChunkView::Glob(
                Glob::Many,
            ) by {
                assert(rest[i] == prefix[i + 1]);
            }
        }
        if path.len() > 0 {
            let tail = path.skip(1);
            lemma_matches_trailing_many(rest, tail);
            if accepts_pointwise(rest, tail) && chunk_accepts(prefix[0], path[0]) {
                assert forall|i: int| 0 <= i < prefix.len() implies chunk_accepts(
                    #[trigger] prefix[i],
                    path[i],
                ) by {
                    if i > 0 {
                        assert(prefix[i] == rest[i - 1]);
                        assert(path[i] == tail[i - 1]);
                    }
                }
            }
            if accepts_pointwise(prefix, path) {
                assert forall|i: int| 0 <= i < rest.len() implies chunk_accepts(
                    #[trigger] rest[i],
                    tail[i],
                ) by {
                    assert(rest[i] == prefix[i + 1]);
                    assert(tail[i] == path[i + 1]);
                    assert(chunk_accepts(prefix[i + 1], path[i + 1]));
                }
                assert(chunk_accepts(prefix[0], path[0]));
            }
        }
    }
}

/// The segments `segments`, with `::` between each two.
pub open spec fn join_segments(segments: Seq<Seq<char>>) -> Seq<char>
    decreases segments.len(),
{
    if segments.len() == 0 {
        Seq::empty()
    } else if segments.len() == 1 {
        segments[0]
    } else {
        segments[0] + seq![':', ':'] + join_segments(segments.skip(1))
    }
}

/// The segments from `start` on, joined, are the text from `start` on.
proof fn lemma_segments_join(text: Seq<char>, start: int, i: int)
    requires
        0 <= start <= i <= text.len(),
    ensures
        segments_from(text, start, i).len() >= 1,
        join_segments(segments_from(text, start, i)) == text.subrange(start, text.len() as int),
    decreases text.len() - i,
{
    let segments = segments_from(text, start, i);
    if i >= text.len() {
    } else if separator_at(text, i) {
        let rest = segments_from(text, i + 2, i + 2);
        lemma_segments_join(text, i + 2, i + 2);
        assert(segments.skip(1) =~= rest);
        assert(segments[0] == text.subrange(start, i));
        assert(text.subrange(start, i) + seq![':', ':'] + text.subrange(
            i + 2,
            text.len() as int,
        ) =~= text.subrange(start, text.len() as int));
    } else {
        lemma_segments_join(text, start, i + 1);
    }
}

/// The segments of a text, with `::` put back between them, are the text.
pub proof fn lemma_split_joins_back(text: Seq<char>)
    ensures
        join_segments(split_segments(text)) == text,
{
    lemma_segments_join(text, 0, 0);
    assert(text.subrange(0, text.len() as int) =~= text);
}

/// Where no separator starts in `start..i`, no segment from `start` on
/// holds one.
proof fn lemma_segments_without_separator(text: Seq<char>, start: int, i: int, k: int, j: int)
    requires
        0 <= start <= i <= text.len(),
        forall|at: int| start <= at < i ==> !separator_at(text, at),
        0 <= k < segments_from(text, start, i).len(),
    ensures
        !separator_at(segments_from(text, start, i)[k], j),
    decreases text.len() - i,
{
    let segment = segments_from(text, start, i)[k];
    if i >= text.len() {
        if separator_at(segment, j) {
            assert(separator_at(text, start + j));
        }
    } else if separator_at(text, i) {
        if k == 0 {
            if separator_at(segment, j) {
                assert(separator_at(text, start + j));
            }
        } else {
            assert(segment == segments_from(text, i + 2, i + 2)[k - 1]);
            lemma_segments_without_separator(text, i + 2, i + 2, k - 1, j);
        }
    } else {
        lemma_segments_without_separator(text, start, i + 1, k, j);
    }
}

/// No segment of a text holds `::`.
pub proof fn lemma_segments_hold_no_separator(text: Seq<char>, k: int, j: int)
    requires
        0 <= k < split_segments(text).len(),
    ensures
        !separator_at(split_segments(text)[k], j),
{
    lemma_segments_without_separator(text, 0, 0, k, j);
}

/// What an export is configured with.
#[derive(Debug, Clone)]
pub struct Options {
    /// A macro call is kept as a call where the macro's path matches one of these.
    pub inline_macro_calls: Vec<Namespace>,
    /// Whether errors of the translation are reported as warnings.
    pub downgrade_errors: bool,
}

/// How an inconsistency that the translation meets is reported to the user.
#[derive(Debug, Clone, Copy, PartialEq, Eq, Hash, Structural)]
pub enum Severity {
    Error,
    Warning,
}

impl Options {
    /// How inconsistencies are reported under this configuration: as errors,
    /// or as warnings where errors are downgraded.
    pub fn severity(&self) -> (severity: Severity)
        ensures
            severity == (if self.downgrade_errors {
                Severity::Warning
            } else {
                Severity::Error
            }),
    {
        if self.downgrade_errors {
            Severity::Warning
        } else {
            Severity::Error
        }
    }
}

impl Default for Options {
    fn default() -> (options: Self)
        ensures
            options.inline_macro_calls@.len() == 0,
            !options.downgrade_errors,
    {
        Options { inline_macro_calls: Vec::new(), downgrade_errors: false }
    }
}

} // verus!
