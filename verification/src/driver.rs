//! The decisions around an export: which bodies to export, where the engine
//! is looked for, what to do with its answer, and where its diagnostics
//! point. What reads the environment, runs the engine or writes files is not
//! here: it acts on these decisions and reports back what it found.

use vstd::prelude::*;
use vstd::string::StringExecFns;
use crate::ids::{exported_span, HostSpan, Span};

verus! {

/// The name of the program that transforms the exported tree.
pub const ENGINE_BINARY_NAME: &'static str = "hax-engine";

/// The environment variable that names the engine in place of the search path.
pub const ENGINE_BINARY_VARIABLE: &'static str = "HAX_ENGINE_BINARY";

/// A form in which the body of a definition can be exported.
#[derive(Debug, Clone, Copy, PartialEq, Eq, Hash, Structural)]
pub enum ExportBodyKind {
    /// The typed expression tree, before lowering.
    Thir,
    /// The control-flow graph as it is first built.
    MirBuilt,
    /// The control-flow graph as it is when constants are evaluated.
    MirConst,
}

/// The bodies that an export holds for each definition.
#[derive(Debug, Clone, Copy, PartialEq, Eq, Hash, Structural)]
pub enum BodySelection {
    /// Signatures only.
    NoBody,
    Thir,
    MirBuilt,
    /// The control-flow graph and the expression tree.
    MirBuiltAndThir,
}

/// The request for bodies names a form, or forms together, that cannot be
/// exported.
#[derive(Debug, Clone, Copy, PartialEq, Eq, Hash, Structural)]
pub struct UnsupportedBodyKinds;

/// What a request for the forms `kinds` selects. A form may be named more
/// than once, and the order does not count.
pub open spec fn selection_of(kinds: Seq<ExportBodyKind>) -> Result<
    BodySelection,
    UnsupportedBodyKinds,
> {
    if kinds.contains(ExportBodyKind::MirConst) {
        Err(UnsupportedBodyKinds)
    } else if kinds.contains(ExportBodyKind::Thir) && kinds.contains(ExportBodyKind::MirBuilt) {
        Ok(BodySelection::MirBuiltAndThir)
    } else if kinds.contains(ExportBodyKind::Thir) {
        Ok(BodySelection::Thir)
    } else if kinds.contains(ExportBodyKind::MirBuilt) {
        Ok(BodySelection::MirBuilt)
    } else {
        Ok(BodySelection::NoBody)
    }
}

/// Decides which bodies to export for a request that names the forms `kinds`.
pub fn select_bodies(kinds: &Vec<ExportBodyKind>) -> (selection: Result<
    BodySelection,
    UnsupportedBodyKinds,
>)
    ensures
        selection == selection_of(kinds@),
{
    let mut thir: bool = false;
    let mut mir_built: bool = false;
    let mut mir_const: bool = false;
    let mut i: usize = 0;
    while i < kinds.len()
        invariant
            i <= kinds.len(),
            thir == kinds@.take(i as int).contains(ExportBodyKind::Thir),
            mir_built == kinds@.take(i as int).contains(ExportBodyKind::MirBuilt),
            mir_const == kinds@.take(i as int).contains(ExportBodyKind::MirConst),
        decreases kinds.len() - i,
    {
        let ghost before = kinds@.take(i as int);
        let ghost after = kinds@.take(i + 1);
        proof {
            assert(after =~= before.push(kinds@[i as int]));
            assert forall|kind: ExportBodyKind|
                after.contains(kind) <==> before.contains(kind) || kind == kinds@[i as int] by {
                if before.contains(kind) {
                    let k = choose|k: int| 0 <= k < before.len() && before[k] == kind;
                    assert(after[k] == kind);
                }
                if kind == kinds@[i as int] {
                    assert(after[i as int] == kind);
                }
            }
        }
        match kinds[i] {
            ExportBodyKind::Thir => {
                thir = true;
            },
            ExportBodyKind::MirBuilt => {
                mir_built = true;
            },
            ExportBodyKind::MirConst => {
                mir_const = true;
            },
        }
        i = i + 1;
    }
    proof {
        assert(kinds@.take(i as int) =~= kinds@);
    }
    if mir_const {
        Err(UnsupportedBodyKinds)
    } else if thir && mir_built {
        Ok(BodySelection::MirBuiltAndThir)
    } else if thir {
        Ok(BodySelection::Thir)
    } else if mir_built {
        Ok(BodySelection::MirBuilt)
    } else {
        Ok(BodySelection::NoBody)
    }
}

/// A language that the engine writes proofs for.
#[derive(Debug, Clone, Copy, PartialEq, Eq, Hash, Structural)]
pub enum Backend {
    Fstar,
    Coq,
    Easycrypt,
    ProVerif,
}

/// The name of the backend `backend`, as it stands in the output directory.
pub open spec fn backend_name(backend: Backend) -> Seq<char> {
    match backend {
        Backend::Fstar => "fstar"@,
        Backend::Coq => "coq"@,
        Backend::Easycrypt => "easycrypt"@,
        Backend::ProVerif => "proverif"@,
    }
}

impl Backend {
    /// Whether work on this backend is still in progress: its use is warned
    /// about.
    pub open spec fn spec_is_experimental(&self) -> bool {
        *self is Easycrypt || *self is ProVerif
    }

    /// Whether work on this backend is still in progress.
    #[verifier::when_used_as_spec(spec_is_experimental)]
    pub fn is_experimental(&self) -> (experimental: bool)
        ensures
            experimental == self.spec_is_experimental(),
    {
        match self {
            Backend::Easycrypt | Backend::ProVerif => true,
            _ => false,
        }
    }

    /// The name of this backend.
    pub fn name(&self) -> (name: &'static str)
        ensures
            name@ == backend_name(*self),
    {
        match self {
            Backend::Fstar => "fstar",
            Backend::Coq => "coq",
            Backend::Easycrypt => "easycrypt",
            Backend::ProVerif => "proverif",
        }
    }
}

/// The directory that the files of `backend` are written under, as its
/// segments below the directory of the package: `proofs`, the name of the
/// backend, `extraction`.
pub fn extraction_dir(backend: Backend) -> (segments: Vec<String>)
    ensures
        segments@.len() == 3,
        segments@[0]@ == "proofs"@,
        segments@[1]@ == backend_name(backend),
        segments@[2]@ == "extraction"@,
{
    let mut segments: Vec<String> = Vec::new();
    segments.push(String::from_str("proofs"));
    segments.push(String::from_str(backend.name()));
    segments.push(String::from_str("extraction"));
    segments
}

/// How the payload for debugging the engine is looked at.
#[derive(Debug, Clone, Copy, PartialEq, Eq, Hash, Structural)]
pub enum DebugEngineMode {
    /// It is printed as text.
    File,
    /// It is served to a browser until the user ends the program.
    Interactive,
}

/// What is done with the payload for debugging the engine.
#[derive(Debug, Clone, Copy, PartialEq, Eq, Hash, Structural)]
pub enum DebugAction {
    Nothing,
    /// Print the payload as text.
    Print,
    /// Serve the payload until the user ends the program.
    Serve,
}

/// What is done with the answer of the engine.
#[derive(Debug, Clone, Copy, PartialEq, Eq, Hash, Structural)]
pub struct OutputPlan {
    /// Write the answer itself to the standard output, and no file.
    pub print_response: bool,
    /// Write each file of the answer below the output directory.
    pub write_files: bool,
    pub debug: DebugAction,
}

/// What is done with an answer of the engine: under a dry run the answer is
/// printed and no file is written, else the files are written. A payload for
/// debugging is served where that was asked for, and printed where that was
/// asked for and the run is not dry.
pub open spec fn output_plan_of(
    dry_run: bool,
    debug_engine: Option<DebugEngineMode>,
    has_debug_payload: bool,
) -> OutputPlan {
    OutputPlan {
        print_response: dry_run,
        write_files: !dry_run,
        debug: if !has_debug_payload {
            DebugAction::Nothing
        } else {
            match debug_engine {
                Some(DebugEngineMode::Interactive) => DebugAction::Serve,
                Some(DebugEngineMode::File) => if dry_run {
                    DebugAction::Nothing
                } else {
                    DebugAction::Print
                },
                None => DebugAction::Nothing,
            }
        },
    }
}

/// Decides what to do with an answer of the engine.
pub fn output_plan(
    dry_run: bool,
    debug_engine: Option<DebugEngineMode>,
    has_debug_payload: bool,
) -> (plan: OutputPlan)
    ensures
        plan == output_plan_of(dry_run, debug_engine, has_debug_payload),
{
    let debug = if !has_debug_payload {
        DebugAction::Nothing
    } else {
        match debug_engine {
            Some(DebugEngineMode::Interactive) => DebugAction::Serve,
            Some(DebugEngineMode::File) => if dry_run {
                DebugAction::Nothing
            } else {
                DebugAction::Print
            },
            None => DebugAction::Nothing,
        }
    };
    OutputPlan { print_response: dry_run, write_files: !dry_run, debug }
}

/// How a run of the engine ended.
#[derive(Debug, Clone, Copy, PartialEq, Eq, Hash, Structural)]
pub enum EngineVerdict {
    /// The engine ended well: its answer is to be read.
    ReadAnswer,
    /// The engine failed: the export ends with an error that shows this exit
    /// code and what the engine wrote.
    Failed { code: i32 },
}

/// Judges a run of the engine by its exit status. Where the engine failed
/// without an exit code, the code shown is -1.
pub fn engine_verdict(success: bool, code: Option<i32>) -> (verdict: EngineVerdict)
    ensures
        success ==> verdict == EngineVerdict::ReadAnswer,
        !success && code is Some ==> verdict == (EngineVerdict::Failed { code: code->Some_0 }),
        !success && code is None ==> verdict == (EngineVerdict::Failed { code: -1i32 }),
{
    if success {
        EngineVerdict::ReadAnswer
    } else {
        match code {
            Some(code) => EngineVerdict::Failed { code },
            None => EngineVerdict::Failed { code: -1 },
        }
    }
}

/// Where the search for the engine stands.
#[derive(Debug, Clone, Copy, PartialEq, Eq, Hash, Structural)]
pub enum EngineSearch {
    /// The environment variable is being read.
    Override,
    /// The engine is being looked for on the search path.
    SearchPath,
    /// An interpreter that could host the engine is being looked for.
    Interpreter,
    /// The user is being asked whether to fetch the hosted engine.
    Confirmation,
}

/// What the outside reports back to the search.
#[derive(Debug, Clone, Copy, PartialEq, Eq, Hash, Structural)]
pub enum SearchEvent {
    /// What was looked for was found.
    Found,
    /// It was not found, or the user said no.
    Missing,
}

/// What the search does next.
#[derive(Debug, Clone, Copy, PartialEq, Eq, Hash, Structural)]
pub enum SearchStep {
    /// Go on in the given state: look up what it names and report back.
    Continue(EngineSearch),
    /// Run what was just found.
    Run,
    /// The user agreed to fetch the hosted engine, which cannot be done.
    FetchUnsupported,
    /// Give up: no engine can be had.
    NotFound,
}

/// The next step of the search. The environment variable comes first, then
/// the search path, then the interpreter, whose engine is only fetched with
/// the consent of the user.
pub open spec fn search_step_of(state: EngineSearch, event: SearchEvent) -> SearchStep {
    match (state, event) {
        (EngineSearch::Override, SearchEvent::Found) => SearchStep::Run,
        (EngineSearch::Override, SearchEvent::Missing) => SearchStep::Continue(
            EngineSearch::SearchPath,
        ),
        (EngineSearch::SearchPath, SearchEvent::Found) => SearchStep::Run,
        (EngineSearch::SearchPath, SearchEvent::Missing) => SearchStep::Continue(
            EngineSearch::Interpreter,
        ),
        (EngineSearch::Interpreter, SearchEvent::Found) => SearchStep::Continue(
            EngineSearch::Confirmation,
        ),
        (EngineSearch::Interpreter, SearchEvent::Missing) => SearchStep::NotFound,
        (EngineSearch::Confirmation, SearchEvent::Found) => SearchStep::FetchUnsupported,
        (EngineSearch::Confirmation, SearchEvent::Missing) => SearchStep::NotFound,
    }
}

impl EngineSearch {
    /// The state in which the search starts.
    pub fn start() -> (state: EngineSearch)
        ensures
            state == EngineSearch::Override,
    {
        EngineSearch::Override
    }

    /// How many steps the search can still take from this state.
    pub open spec fn remaining(&self) -> nat {
        match self {
            EngineSearch::Override => 4,
            EngineSearch::SearchPath => 3,
            EngineSearch::Interpreter => 2,
            EngineSearch::Confirmation => 1,
        }
    }
}

/// Decides the next step of the search for the engine from what the outside
/// found in the state `state`.
pub fn find_hax_engine(state: EngineSearch, event: SearchEvent) -> (step: SearchStep)
    ensures
        step == search_step_of(state, event),
        step matches SearchStep::Continue(next) ==> next.remaining() < state.remaining(),
{
    match state {
        EngineSearch::Override => match event {
            SearchEvent::Found => SearchStep::Run,
            SearchEvent::Missing => SearchStep::Continue(EngineSearch::SearchPath),
        },
        EngineSearch::SearchPath => match event {
            SearchEvent::Found => SearchStep::Run,
            SearchEvent::Missing => SearchStep::Continue(EngineSearch::Interpreter),
        },
        EngineSearch::Interpreter => match event {
            SearchEvent::Found => SearchStep::Continue(EngineSearch::Confirmation),
            SearchEvent::Missing => SearchStep::NotFound,
        },
        EngineSearch::Confirmation => match event {
            SearchEvent::Found => SearchStep::FetchUnsupported,
            SearchEvent::Missing => SearchStep::NotFound,
        },
    }
}

/// The text that says that the engine was not found.
pub open spec fn engine_not_found_text() -> Seq<char> {
    "The binary ["@ + ENGINE_BINARY_NAME@ + "] was not found in your [PATH]. Set ["@
        + ENGINE_BINARY_VARIABLE@ + "] to name it."@
}

/// The diagnostic for an engine that cannot be had: it names the program
/// that is missing and the environment variable that can name it.
pub fn engine_not_found_message() -> (text: String)
    ensures
        text@ == engine_not_found_text(),
{
    String::from_str("The binary [").concat(ENGINE_BINARY_NAME).concat(
        "] was not found in your [PATH]. Set [",
    ).concat(ENGINE_BINARY_VARIABLE).concat("] to name it.")
}

/// A diagnostic of the engine: it points into the exported tree.
#[derive(Debug, Clone, PartialEq, Eq)]
pub struct Diagnostic {
    pub span: Span,
    pub message: String,
}

/// A diagnostic that is ready for the host: it points into the program where
/// the exported span is known, and nowhere else.
#[derive(Debug, Clone, PartialEq, Eq)]
pub struct HostDiagnostic {
    pub span: Option<HostSpan>,
    pub message: String,
}

/// The host span of the first entry of `mapping` for the exported span `span`.
pub open spec fn located(mapping: Seq<(Span, HostSpan)>, span: Span) -> Option<HostSpan>
    decreases mapping.len(),
{
    if mapping.len() == 0 {
        None
    } else if mapping[0].0 == span {
        Some(mapping[0].1)
    } else {
        located(mapping.skip(1), span)
    }
}

/// The table from exported spans back to the host spans `spans`.
pub open spec fn mapping_of(spans: Seq<HostSpan>) -> Seq<(Span, HostSpan)> {
    spans.map_values(|span: HostSpan| (exported_span(span), span))
}

/// Builds the table that leads from each exported span back to a host span,
/// from the host spans that were met during the translation.
pub fn span_mapping(spans: &Vec<HostSpan>) -> (mapping: Vec<(Span, HostSpan)>)
    ensures
        mapping@ == mapping_of(spans@),
{
    let mut mapping: Vec<(Span, HostSpan)> = Vec::new();
    let mut i: usize = 0;
    while i < spans.len()
        invariant
            i <= spans.len(),
            mapping@ == mapping_of(spans@.take(i as int)),
        decreases spans.len() - i,
    {
        let span: HostSpan = spans[i];
        mapping.push((span.exported(), span));
        proof {
            assert(spans@.take(i + 1) =~= spans@.take(i as int).push(span));
            assert(mapping_of(spans@.take(i as int).push(span)) =~= mapping_of(
                spans@.take(i as int),
            ).push((exported_span(span), span)));
        }
        i = i + 1;
    }
    proof {
        assert(spans@.take(i as int) =~= spans@);
    }
    mapping
}

/// Finds the host span that the exported span `span` came from.
pub fn locate(mapping: &Vec<(Span, HostSpan)>, span: &Span) -> (found: Option<HostSpan>)
    ensures
        found == located(mapping@, *span),
{
    let mut i: usize = 0;
    proof {
        assert(mapping@.skip(0) =~= mapping@);
    }
    while i < mapping.len()
        invariant
            i <= mapping.len(),
            located(mapping@, *span) == located(mapping@.skip(i as int), *span),
        decreases mapping.len() - i,
    {
        proof {
            assert(mapping@.skip(i as int).skip(1) =~= mapping@.skip(i + 1));
        }
        if mapping[i].0 == *span {
            return Some(mapping[i].1);
        }
        i = i + 1;
    }
    None
}

/// Whether `ready` is the diagnostic `diagnostic` made ready for the host.
pub open spec fn reports(
    mapping: Seq<(Span, HostSpan)>,
    diagnostic: Diagnostic,
    ready: HostDiagnostic,
) -> bool {
    ready.span == located(mapping, diagnostic.span) && ready.message@ == diagnostic.message@
}

/// Makes the diagnostics of the engine ready for the host: each keeps its
/// message and points to the host span that its exported span came from;
/// where that is not known it points nowhere.
pub fn report_diagnostics(diagnostics: &Vec<Diagnostic>, mapping: &Vec<(Span, HostSpan)>) -> (ready:
    Vec<HostDiagnostic>)
    ensures
        ready@.len() == diagnostics@.len(),
        forall|k: int|
            0 <= k < ready@.len() ==> reports(mapping@, diagnostics@[k], #[trigger] ready@[k]),
{
    let mut ready: Vec<HostDiagnostic> = Vec::new();
    let mut i: usize = 0;
    while i < diagnostics.len()
        invariant
            i <= diagnostics.len(),
            ready@.len() == i,
            forall|k: int| 0 <= k < i ==> reports(mapping@, diagnostics@[k], #[trigger] ready@[k]),
        decreases diagnostics.len() - i,
    {
        let span = locate(mapping, &diagnostics[i].span);
        ready.push(HostDiagnostic { span, message: diagnostics[i].message.clone() });
        i = i + 1;
    }
    ready
}

/// Every host span that was met is found again from its exported form, up
/// to the hygiene context: what is found exports to the same span.
pub proof fn lemma_span_round_trip(spans: Seq<HostSpan>, i: int)
    requires
        0 <= i < spans.len(),
    ensures
        located(mapping_of(spans), exported_span(spans[i])) is Some,
        exported_span(located(mapping_of(spans), exported_span(spans[i]))->Some_0) == exported_span(
            spans[i],
        ),
    decreases spans.len(),
{
    let mapping = mapping_of(spans);
    if mapping[0].0 != exported_span(spans[i]) {
        assert(mapping.skip(1) =~= mapping_of(spans.skip(1)));
        assert(spans.skip(1)[i - 1] == spans[i]);
        lemma_span_round_trip(spans.skip(1), i - 1);
    }
}

/// An exported span that no host span of the table exports to is not found.
pub proof fn lemma_unknown_span_unlocated(spans: Seq<HostSpan>, span: Span)
    requires
        forall|i: int| 0 <= i < spans.len() ==> exported_span(#[trigger] spans[i]) != span,
    ensures
        located(mapping_of(spans), span) is None,
    decreases spans.len(),
{
    let mapping = mapping_of(spans);
    if spans.len() > 0 {
        assert(mapping[0].0 == exported_span(spans[0]));
        assert(mapping.skip(1) =~= mapping_of(spans.skip(1)));
        assert forall|i: int| 0 <= i < spans.skip(1).len() implies exported_span(
            #[trigger] spans.skip(1)[i],
        ) != span by {
            assert(spans.skip(1)[i] == spans[i + 1]);
        }
        lemma_unknown_span_unlocated(spans.skip(1), span);
    }
}

} // verus!
