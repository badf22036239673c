//! The post-mortem, boot and recovery collectors.
//!
//! These three orchestrate several device reads; [`crate::collect`] does the work.
//! They differ only in metadata and in which probes are run, so one type serves
//! for all of them.

use vstd::prelude::*;
use crate::parser::parse_auto;
use crate::parser::record::LogRecord;
use crate::source::{spec, LogSource, LogSourceKind, LogSourceSpec, SourceOptions};

verus! {

/// A collector whose records come from several device reads.
#[derive(Debug, Clone, Copy)]
pub struct SpecialSource {
    kind: LogSourceKind,
}

impl SpecialSource {
    #[verifier::type_invariant]
    spec fn orchestrates(self) -> bool {
        self.kind.orchestrated()
    }

    /// Creates the collector for one of the orchestrated kinds.
    pub fn new(kind: LogSourceKind) -> (r: Self)
        requires
            kind.orchestrated(),
        ensures
            r.source_kind() == kind,
    {
        SpecialSource { kind }
    }
}

impl LogSource for SpecialSource {
    closed spec fn source_kind(&self) -> LogSourceKind {
        self.kind
    }

    fn kind(&self) -> (r: LogSourceKind) {
        self.kind
    }

    fn spec(&self) -> (r: &'static LogSourceSpec) {
        spec(self.kind)
    }

    /// A readable summary of what will be read; no custom command is offered.
    fn command(&self, options: &SourceOptions) -> (r: String) {
        proof {
            use_type_invariant(self);
        }
        spec(self.kind).default_command.to_owned()
    }

    /// Decodes one line without knowing which read produced it.
    fn parse_line(&self, line: &str, seq: u64) -> (r: LogRecord) {
        proof {
            use_type_invariant(self);
        }
        parse_auto(self.kind, line, seq)
    }
}

} // verus!
