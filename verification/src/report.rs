//! The two text outputs: a line for each frame as it is counted, and the
//! summary of all flows at the end.

use vstd::prelude::*;
use vstd::string::StringExecFns;
use crate::aggregate::{summary_order, tallies, FlowAggregator, FlowCount, Tally};
use crate::text::{decimal_text, push_decimal};

verus! {

/// A line of the summary: `<flow>: <count>`.
pub open spec fn summary_line_text(entry: Tally) -> Seq<char> {
    entry.flow.text() + seq![':', ' '] + decimal_text(entry.count)
}

/// The line for a frame that was counted at the moment that `stamp`
/// names: `[<stamp>] <flow> -- <count>`.
pub open spec fn frame_line_text(stamp: Seq<char>, entry: Tally) -> Seq<char> {
    seq!['['] + stamp + seq![']', ' '] + entry.flow.text() + seq![' ', '-', '-', ' ']
        + decimal_text(entry.count)
}

/// The text that chrono writes for the date and time of day, in UTC,
/// `secs` seconds and `nanos` nanoseconds after the Unix epoch; `None`
/// where chrono has no date and time for the two numbers.
pub uninterp spec fn timestamp_text(secs: i64, nanos: u32) -> Option<Seq<char>>;

/// Calls `chrono::DateTime::from_timestamp`, and writes the date and time
/// that it returns, without their time zone (`DateTime::naive_utc`), by the
/// `Display` impl of `chrono::NaiveDateTime`.
///
/// Trusted: the outcome depends on the two numbers alone, so it is the
/// outcome that [`timestamp_text`] names. Nothing is claimed of what the
/// text looks like or of which numbers chrono turns down.
#[verifier::external_body]
pub(crate) fn format_timestamp(secs: i64, nanos: u32) -> (text: Option<String>)
    ensures
        match text {
            Some(stamp) => timestamp_text(secs, nanos) == Some(stamp@),
            None => timestamp_text(secs, nanos) is None,
        },
{
    match chrono::DateTime::from_timestamp(secs, nanos) {
        Some(moment) => Some(moment.naive_utc().to_string()),
        None => None,
    }
}

/// Renders a line of the summary.
pub fn summary_line(entry: &FlowCount) -> (line: String)
    ensures
        line@ == summary_line_text(entry@),
{
    let mut line = entry.flow.render();
    proof {
        reveal_strlit(": ");
    }
    line.append(": ");
    push_decimal(&mut line, entry.count);
    assert(line@ =~= summary_line_text(entry@));
    line
}

/// Renders the summary: a line for each flow, in ascending order of
/// count, flows of equal count in the order in which they were first seen.
pub fn summary_lines(agg: &FlowAggregator) -> (lines: Vec<String>)
    ensures
        lines@.len() == agg@.len(),
        forall|i: int|
            0 <= i < lines@.len() ==> (#[trigger] lines@[i])@ == summary_line_text(
                summary_order(agg@)[i],
            ),
{
    let entries = agg.summary();
    let mut lines: Vec<String> = Vec::new();
    let mut i: usize = 0;
    while i < entries.len()
        invariant
            i <= entries.len(),
            lines@.len() == i,
            tallies(entries@) == summary_order(agg@),
            forall|k: int|
                0 <= k < i ==> (#[trigger] lines@[k])@ == summary_line_text(summary_order(agg@)[k]),
        decreases entries.len() - i,
    {
        let line = summary_line(&entries[i]);
        assert(tallies(entries@)[i as int] == entries@[i as int]@);
        lines.push(line);
        i = i + 1;
    }
    lines
}

/// Renders the line for a counted frame behind a time stamp that is
/// already text.
pub fn frame_line(stamp: &str, seen: &FlowCount) -> (line: String)
    ensures
        line@ == frame_line_text(stamp@, seen@),
{
    let mut line = String::new();
    proof {
        reveal_strlit("[");
        reveal_strlit("] ");
        reveal_strlit(" -- ");
    }
    line.append("[");
    line.append(stamp);
    line.append("] ");
    let flow = seen.flow.render();
    line.append(flow.as_str());
    line.append(" -- ");
    push_decimal(&mut line, seen.count);
    assert(line@ =~= frame_line_text(stamp@, seen@));
    line
}

} // verus!
