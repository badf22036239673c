//! Log line parsing.
//!
//! Each grammar is a spec function from a line to the [`Fields`] it reads out of
//! it, or to nothing where the line is not of that grammar. A line of no grammar
//! is not an error: it is kept verbatim as a raw record.

pub mod kernel;
pub mod laws;
pub mod logcat;
pub mod record;

pub use crate::parser::kernel::{parse_dmesg, parse_kernel, parse_kmsg};
pub use crate::parser::logcat::{parse_logcat, parse_logcat_brief, parse_logcat_threadtime};
pub use crate::parser::record::{LogLevel, LogRecord, Uptime, UptimeUnit};

use vstd::prelude::*;
use crate::parser::record::{decoded, raw_record, Fields, RecordView};
use crate::source::LogSourceKind;

verus! {

/// What is read out of a line of unknown grammar: logcat first, since it is the
/// strictest, then kernel text.
pub open spec fn auto_fields(line: Seq<char>) -> Option<Fields> {
    match crate::parser::logcat::logcat_fields(line) {
        Some(fields) => Some(fields),
        None => crate::parser::kernel::dmesg_fields(line),
    }
}

/// The record that stands for a line, given what its grammar reads out of it.
pub open spec fn record_of(
    source: LogSourceKind,
    seq: u64,
    line: Seq<char>,
    fields: Option<Fields>,
    received_at_ms: u64,
) -> RecordView {
    match fields {
        Some(fields) => decoded(source, seq, line, fields, received_at_ms),
        None => raw_record(source, seq, line, received_at_ms),
    }
}

/// Decodes a line without being told which grammar it uses.
///
/// Each grammar is tried in turn, strictest first, and a line that matches none is
/// kept as a raw record. The record carries `source`, whichever grammar matched.
pub fn parse_auto(source: LogSourceKind, line: &str, seq: u64) -> (r: LogRecord)
    ensures
        r@ == record_of(source, seq, line@, auto_fields(line@), r.received_at_ms),
{
    match parse_logcat(line, seq) {
        Some(record) => retag(record, source),
        None => match parse_dmesg(line, seq) {
            Some(record) => retag(record, source),
            None => LogRecord::raw_line(source, seq, line),
        },
    }
}

/// Rewrites a parsed record's source.
pub(crate) fn retag(record: LogRecord, source: LogSourceKind) -> (r: LogRecord)
    ensures
        r@ == (RecordView { source, ..record@ }),
{
    let mut record: LogRecord = record;
    record.source = source;
    record
}

/// No line is ever lost: whatever a grammar makes of it, the record keeps the line
/// verbatim, and a line of no grammar is also the record's message.
pub proof fn law_records_keep_their_line(
    source: LogSourceKind,
    seq: u64,
    line: Seq<char>,
    fields: Option<Fields>,
    received_at_ms: u64,
)
    ensures
        ({
            let record = record_of(source, seq, line, fields, received_at_ms);
            &&& record.raw == line
            &&& record.source == source
            &&& record.seq == seq
            &&& record.received_at_ms == received_at_ms
            &&& record.parsed == (fields is Some)
            &&& fields is None ==> record.fields.message == line
        }),
{
}

} // verus!
