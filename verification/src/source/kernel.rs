//! Kernel ring-buffer collectors: `dmesg -w` and `cat /dev/kmsg`.
//!
//! Both read the same buffer in different grammars, so they share
//! [`crate::parser::parse_kernel`].

use vstd::prelude::*;
use crate::parser::parse_kernel;
use crate::parser::record::LogRecord;
use crate::source::{effective_command, spec, LogSource, LogSourceKind, LogSourceSpec, SourceOptions};

verus! {

/// Follows the kernel ring buffer in text form.
pub const DMESG_COMMAND: &'static str = "dmesg -w";

/// Reads the kernel ring buffer in its structured form.
///
/// `/dev/kmsg` rather than `/proc/kmsg`: its records carry the timestamp and the
/// severity, and reading it takes no message away from another reader.
pub const KMSG_COMMAND: &'static str = "cat /dev/kmsg";

/// Streams `dmesg -w`.
#[derive(Debug, Clone, Copy)]
pub struct DmesgSource;

impl DmesgSource {
    /// Creates the collector.
    pub fn new() -> (r: Self)
        ensures
            r.source_kind() == LogSourceKind::Dmesg,
    {
        DmesgSource
    }
}

impl Default for DmesgSource {
    fn default() -> (r: Self)
        ensures
            r.source_kind() == LogSourceKind::Dmesg,
    {
        DmesgSource
    }
}

impl LogSource for DmesgSource {
    open spec fn source_kind(&self) -> LogSourceKind {
        LogSourceKind::Dmesg
    }

    fn kind(&self) -> (r: LogSourceKind) {
        LogSourceKind::Dmesg
    }

    fn spec(&self) -> (r: &'static LogSourceSpec) {
        spec(LogSourceKind::Dmesg)
    }

    fn command(&self, options: &SourceOptions) -> (r: String) {
        effective_command(options, DMESG_COMMAND)
    }

    fn parse_line(&self, line: &str, seq: u64) -> (r: LogRecord) {
        match parse_kernel(line, LogSourceKind::Dmesg, seq) {
            Some(record) => record,
            None => LogRecord::raw_line(LogSourceKind::Dmesg, seq, line),
        }
    }
}

/// Streams `/dev/kmsg`.
#[derive(Debug, Clone, Copy)]
pub struct KmsgSource;

impl KmsgSource {
    /// Creates the collector.
    pub fn new() -> (r: Self)
        ensures
            r.source_kind() == LogSourceKind::Kmsg,
    {
        KmsgSource
    }
}

impl Default for KmsgSource {
    fn default() -> (r: Self)
        ensures
            r.source_kind() == LogSourceKind::Kmsg,
    {
        KmsgSource
    }
}

impl LogSource for KmsgSource {
    open spec fn source_kind(&self) -> LogSourceKind {
        LogSourceKind::Kmsg
    }

    fn kind(&self) -> (r: LogSourceKind) {
        LogSourceKind::Kmsg
    }

    fn spec(&self) -> (r: &'static LogSourceSpec) {
        spec(LogSourceKind::Kmsg)
    }

    fn command(&self, options: &SourceOptions) -> (r: String) {
        effective_command(options, KMSG_COMMAND)
    }

    fn parse_line(&self, line: &str, seq: u64) -> (r: LogRecord) {
        match parse_kernel(line, LogSourceKind::Kmsg, seq) {
            Some(record) => record,
            None => LogRecord::raw_line(LogSourceKind::Kmsg, seq, line),
        }
    }
}

} // verus!
