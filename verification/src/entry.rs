//! A loaded line: its raw text and the styled segments decoded from it.

use vstd::prelude::*;
use crate::decoder::{decode_chars, decode_spec, segments_view, Segment};
use crate::style::Style;
use crate::text::{chars_are_blank, is_blank, to_chars};

verus! {

/// One non-blank line of the input. The segments are decoded once, when the
/// entry is made, and never change.
#[derive(Debug)]
pub struct LogEntry {
    raw_content: String,
    segments: Vec<Segment>,
}

/// What a `LogEntry` holds, as plain values.
pub ghost struct LogEntryView {
    pub raw: Seq<char>,
    pub segments: Seq<(Seq<char>, Style)>,
}

impl View for LogEntry {
    type V = LogEntryView;

    closed spec fn view(&self) -> LogEntryView {
        LogEntryView { raw: self.raw_content@, segments: segments_view(self.segments@) }
    }
}

impl LogEntry {
    #[verifier::type_invariant]
    spec fn decoded(&self) -> bool {
        segments_view(self.segments@) == decode_spec(self.raw_content@)
    }

    /// The line as it was read, escape sequences included.
    pub fn raw_content(&self) -> (raw: &String)
        ensures
            raw@ == self@.raw,
    {
        &self.raw_content
    }

    /// The styled segments of the line: what decoding its raw text gives.
    pub fn segments(&self) -> (segments: &Vec<Segment>)
        ensures
            segments_view(segments@) == self@.segments,
            self@.segments == decode_spec(self@.raw),
    {
        proof {
            use_type_invariant(self);
        }
        &self.segments
    }
}

/// Makes the entry for one line of input. A blank line makes none; any other
/// line makes an entry with the line as its raw text and the decoded line as
/// its segments.
pub fn parse_log_line(line: &str) -> (entry: Option<LogEntry>)
    ensures
        entry is None <==> is_blank(line@),
        entry is Some ==> entry->Some_0@.raw == line@ && entry->Some_0@.segments == decode_spec(
            line@,
        ),
{
    let chars = to_chars(line);
    if chars_are_blank(&chars) {
        return None;
    }
    let segments = decode_chars(&chars);
    Some(LogEntry { raw_content: line.to_owned(), segments })
}

} // verus!
