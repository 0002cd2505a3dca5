//! The operations offered to clients, each answering with a success flag
//! and a message.
use vstd::prelude::*;
use crate::country::Country;
use crate::db::{blacklist, op_of, BankDirectory, Blacklist, DbResponse, UNKNOWN_OPERATION};
use crate::ingest::{expected_records, fill_table, records_view, IngestError};

verus! {

pub const FILLED: &'static str = "Success: table has been (re)filled with data";

pub const UNREADABLE_SOURCE: &'static str = "Failure: the source file could not be read.";

pub const MISSING_SHEET: &'static str = "Failure: the source file lacks the expected worksheet.";

pub const EMPTY_SOURCE: &'static str = "Failure: the source file holds no header line.";

pub const MISSING_COLUMN: &'static str = "Failure: the source file lacks an expected column.";

pub const BAD_ROW: &'static str = "Failure: a row of the source file could not be read.";

pub open spec fn error_message(e: IngestError) -> Seq<char> {
    match e {
        IngestError::UnreadableSource => UNREADABLE_SOURCE@,
        IngestError::MissingSheet => MISSING_SHEET@,
        IngestError::EmptySource => EMPTY_SOURCE@,
        IngestError::MissingColumn => MISSING_COLUMN@,
        IngestError::BadRow(_) => BAD_ROW@,
    }
}

impl IngestError {
    /// Describes the failure for a client.
    pub fn message(&self) -> (r: String)
        ensures
            r@ == error_message(*self),
    {
        match self {
            IngestError::UnreadableSource => String::from_str(UNREADABLE_SOURCE),
            IngestError::MissingSheet => String::from_str(MISSING_SHEET),
            IngestError::EmptySource => String::from_str(EMPTY_SOURCE),
            IngestError::MissingColumn => String::from_str(MISSING_COLUMN),
            IngestError::BadRow(_) => String::from_str(BAD_ROW),
        }
    }
}

/// Adds an IBAN to the blacklist or removes it, by the operation's name.
/// Succeeds with an empty message exactly when the operation is known.
pub fn blacklist_request(list: &mut Blacklist, iban: &str, op: &str) -> (r: DbResponse)
    requires
        old(list).wf(),
    ensures
        final(list).wf(),
        r.success == (op_of(op@) is Some),
        match op_of(op@) {
            Some(o) => r.message@ == Seq::<char>::empty() && final(list)@ == old(list)@.insert(
                iban@,
                o.blocks(),
            ),
            None => r.message@ == UNKNOWN_OPERATION@ && final(list)@ == old(list)@,
        },
{
    match blacklist(list, iban, op) {
        Ok(()) => DbResponse { success: true, message: String::new() },
        Err(message) => DbResponse { success: false, message },
    }
}

/// Rebuilds a country's table from its source file, or reports why the
/// file could not be had (`source` holds that message) or ingested. The
/// table changes only on success.
pub fn fill_table_request(
    dir: &mut BankDirectory,
    country: Country,
    source: Result<Vec<u8>, String>,
) -> (r: DbResponse)
    ensures
        match source {
            Ok(bytes) => match expected_records(country, bytes@) {
                Ok(recs) => r.success && r.message@ == FILLED@ && records_view(
                    final(dir).table(country),
                ) == recs,
                Err(e) => !r.success && (forall|c: Country|
                    #[trigger] final(dir).table(c) == old(dir).table(c))
                    && if e == IngestError::UnreadableSource {
                    r.message@ == UNREADABLE_SOURCE@ || r.message@ == MISSING_SHEET@
                } else {
                    r.message@ == error_message(e)
                },
            },
            Err(m) => !r.success && r.message == m && forall|c: Country|
                #[trigger] final(dir).table(c) == old(dir).table(c),
        },
        forall|c: Country| c != country ==> #[trigger] final(dir).table(c) == old(dir).table(c),
        r.success ==> expected_records(country, source->Ok_0@) is Ok,
{
    match source {
        Ok(bytes) => match fill_table(dir, country, bytes.as_slice()) {
            Ok(_) => DbResponse { success: true, message: String::from_str(FILLED) },
            Err(e) => DbResponse { success: false, message: e.message() },
        },
        Err(message) => DbResponse { success: false, message },
    }
}

} // verus!
