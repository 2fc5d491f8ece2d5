//! The two points at which the host hands over to the export: after the
//! unit is parsed, when the macro calls can still be seen, and after it is
//! expanded and type-checked, when it can be exported.

use vstd::prelude::*;
use vstd::std_specs::convert::FromSpecImpl;
use crate::driver::{
    select_bodies, selection_of, Backend, BodySelection, DebugEngineMode, ExportBodyKind,
    UnsupportedBodyKinds,
};
use crate::export::{convert_thir, is_conversion_of, Conversion, HostUnit};
use crate::macro_calls::{collect_macros, recorded_calls, records_call, HostMacCall, MacroCalls};
use crate::options::{Namespace, Options};

verus! {

/// What the export is asked to do with the exported tree.
#[derive(Debug, Clone, PartialEq, Eq)]
pub enum ExporterCommand {
    /// Write it down: with the bodies `kind`, and with the exported
    /// definitions and implementations beside the items where `include_extra`.
    JSON { kind: Vec<ExportBodyKind>, include_extra: bool },
    /// Hand it to the engine for the backend `backend`.
    Backend { backend: Backend, dry_run: bool, debug_engine: Option<DebugEngineMode> },
}

/// Whether the host goes on compiling after it handed over.
#[derive(Debug, Clone, Copy, PartialEq, Eq, Structural)]
pub enum Compilation {
    Stop,
    Continue,
}

/// What the export needs from the command line, and what it recorded.
#[derive(Debug)]
pub struct ExtractionCallbacks {
    pub inline_macro_calls: Vec<Namespace>,
    pub command: ExporterCommand,
    pub macro_calls: MacroCalls,
}

impl FromSpecImpl<ExtractionCallbacks> for Options {
    open spec fn obeys_from_spec() -> bool {
        true
    }

    open spec fn from_spec(opts: ExtractionCallbacks) -> Self {
        Options { inline_macro_calls: opts.inline_macro_calls, downgrade_errors: false }
    }
}

impl From<ExtractionCallbacks> for Options {
    /// The configuration of the translation: the macros to keep, and errors
    /// reported as errors.
    fn from(opts: ExtractionCallbacks) -> (options: Options) {
        Options { inline_macro_calls: opts.inline_macro_calls, downgrade_errors: false }
    }
}

/// What is to be done with an exported unit.
#[derive(Debug)]
pub enum ExportAction {
    /// Write the items, and beside them the exported definitions and the
    /// implementations where `include_extra`.
    WriteJson { conversion: Conversion, include_extra: bool },
    /// Run the engine on the items and the implementations; warn first where
    /// work on the backend is still in progress.
    RunEngine { conversion: Conversion, backend: Backend, warn_experimental: bool },
    /// The forms of bodies that were asked for cannot be exported together.
    Unsupported(UnsupportedBodyKinds),
}

/// The bodies that the command `command` asks for: those it names, or the
/// expression trees, which are what the engine reads.
pub open spec fn selection_for(command: ExporterCommand) -> Result<
    BodySelection,
    UnsupportedBodyKinds,
> {
    match command {
        ExporterCommand::JSON { kind, .. } => selection_of(kind@),
        ExporterCommand::Backend { .. } => Ok(BodySelection::Thir),
    }
}

impl ExtractionCallbacks {
    /// What is recorded at the start: nothing.
    pub fn new(inline_macro_calls: Vec<Namespace>, command: ExporterCommand) -> (callbacks:
        ExtractionCallbacks)
        ensures
            callbacks.inline_macro_calls == inline_macro_calls,
            callbacks.command == command,
            callbacks.macro_calls.wf(),
            callbacks.macro_calls.records@.len() == 0,
    {
        ExtractionCallbacks { inline_macro_calls, command, macro_calls: MacroCalls::new() }
    }

    /// Records the macro calls `calls` that the parsed unit shows, and lets
    /// the host go on.
    pub fn after_crate_root_parsing(&mut self, calls: &Vec<HostMacCall>) -> (next: Compilation)
        ensures
            next == Compilation::Continue,
            final(self).inline_macro_calls == old(self).inline_macro_calls,
            final(self).command == old(self).command,
            final(self).macro_calls.wf(),
            final(self).macro_calls.records@.len() == recorded_calls(calls@).len(),
            forall|k: int|
                0 <= k < final(self).macro_calls.records@.len() ==> records_call(
                    #[trigger] final(self).macro_calls.records@[k],
                    recorded_calls(calls@)[k],
                ),
    {
        self.macro_calls = collect_macros(calls);
        Compilation::Continue
    }

    /// The bodies that the command asks for. This is known before anything
    /// is read from the host, so that a request that cannot be met is refused
    /// before any part of the unit is exported.
    pub fn selection(&self) -> (selection: Result<BodySelection, UnsupportedBodyKinds>)
        ensures
            selection == selection_for(self.command),
    {
        match &self.command {
            ExporterCommand::JSON { kind, .. } => select_bodies(kind),
            ExporterCommand::Backend { .. } => Ok(BodySelection::Thir),
        }
    }

    /// Exports the unit `unit` as the command asks, and says what is to be
    /// done with it. The host stops afterwards in every case.
    pub fn after_expansion(self, unit: HostUnit) -> (out: (ExportAction, Compilation))
        requires
            self.macro_calls.wf(),
        ensures
            out.1 == Compilation::Stop,
            match selection_for(self.command) {
                Err(e) => out.0 == ExportAction::Unsupported(e),
                Ok(selection) => match self.command {
                    ExporterCommand::JSON { include_extra, .. } => out.0 matches ExportAction::WriteJson {
                        conversion,
                        include_extra: extra,
                    } && extra == include_extra && is_conversion_of(
                        Options { inline_macro_calls: self.inline_macro_calls, downgrade_errors: false },
                        self.macro_calls,
                        unit,
                        selection,
                        conversion,
                    ),
                    ExporterCommand::Backend { backend, .. } => out.0 matches ExportAction::RunEngine {
                        conversion,
                        backend: b,
                        warn_experimental,
                    } && b == backend && warn_experimental == backend.spec_is_experimental()
                        && is_conversion_of(
                        Options { inline_macro_calls: self.inline_macro_calls, downgrade_errors: false },
                        self.macro_calls,
                        unit,
                        selection,
                        conversion,
                    ),
                },
            },
    {
        let ExtractionCallbacks { inline_macro_calls, command, macro_calls } = self;
        let options = Options { inline_macro_calls, downgrade_errors: false };
        match command {
            ExporterCommand::JSON { kind, include_extra } => match select_bodies(&kind) {
                Err(e) => (ExportAction::Unsupported(e), Compilation::Stop),
                Ok(selection) => (
                    ExportAction::WriteJson {
                        conversion: convert_thir(options, macro_calls, unit, selection),
                        include_extra,
                    },
                    Compilation::Stop,
                ),
            },
            ExporterCommand::Backend { backend, dry_run, debug_engine } => (
                ExportAction::RunEngine {
                    conversion: convert_thir(options, macro_calls, unit, BodySelection::Thir),
                    backend,
                    warn_experimental: backend.is_experimental(),
                },
                Compilation::Stop,
            ),
        }
    }
}

} // verus!
