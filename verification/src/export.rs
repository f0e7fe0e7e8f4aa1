//! Export format selection. Writing the exported files is the host's
//! concern; the format a configuration string denotes is decided here.

use vstd::prelude::*;

use crate::text::{chars_eq, chars_of, lower_seq, to_lower_chars};

verus! {

/// Shape of an export file.
#[derive(Debug, Clone, Copy, PartialEq, Eq, Structural)]
pub enum ExportFormat {
    Json,
    Text,
    Both,
}

impl ExportFormat {
    /// The format a configuration string denotes, compared
    /// ASCII-case-insensitively; anything unrecognized reads as JSON.
    pub open spec fn from_chars(s: Seq<char>) -> ExportFormat {
        let l = lower_seq(s);
        if l == "json"@ {
            ExportFormat::Json
        } else if l == "text"@ || l == "txt"@ {
            ExportFormat::Text
        } else if l == "both"@ {
            ExportFormat::Both
        } else {
            ExportFormat::Json
        }
    }

    /// Parses a format name.
    pub fn from_str(s: &str) -> (r: ExportFormat)
        ensures
            r == ExportFormat::from_chars(s@),
    {
        let v = chars_of(s);
        let l = to_lower_chars(v.as_slice());
        if chars_eq(l.as_slice(), chars_of("json").as_slice()) {
            ExportFormat::Json
        } else if chars_eq(l.as_slice(), chars_of("text").as_slice()) || chars_eq(
            l.as_slice(),
            chars_of("txt").as_slice(),
        ) {
            ExportFormat::Text
        } else if chars_eq(l.as_slice(), chars_of("both").as_slice()) {
            ExportFormat::Both
        } else {
            ExportFormat::Json
        }
    }
}

} // verus!
