//! The ways in which reading a trace can fail.

use vstd::prelude::*;

verus! {

/// Why a record, a stream or a merge could not be read. Every error is final
/// for the reader that reports it: nothing is retried or skipped.
#[derive(Clone, Copy, Debug, PartialEq, Eq, Structural)]
pub enum Error {
    /// The magic of a record is valid in neither byte order.
    BadMagic,
    /// The stream ends inside the fixed part of a record.
    Truncated,
    /// The byte source failed to read or to skip.
    Io,
    /// No trace file belongs to the device.
    NotFound,
    /// Trace files were found, but none holds a substantive record.
    NoData,
}

impl Error {
    /// What went wrong, in words.
    pub open spec fn text(self) -> Seq<char> {
        match self {
            Error::BadMagic => "Bad trace magic"@,
            Error::Truncated => "Truncated trace record"@,
            Error::Io => "Trace source failed"@,
            Error::NotFound => "No trace files found"@,
            Error::NoData => "No valid trace events found"@,
        }
    }

    /// What went wrong, in words.
    pub fn message(&self) -> (text: &'static str)
        ensures
            text@ == self.text(),
    {
        match self {
            Error::BadMagic => "Bad trace magic",
            Error::Truncated => "Truncated trace record",
            Error::Io => "Trace source failed",
            Error::NotFound => "No trace files found",
            Error::NoData => "No valid trace events found",
        }
    }
}

} // verus!
