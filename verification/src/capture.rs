//! What is done with each frame that the capture hands over.

use vstd::prelude::*;
use crate::aggregate::{count_of, recorded, well_formed, FlowAggregator, Tally};
use crate::parse::frame_key;
use crate::report::{format_timestamp, frame_line, frame_line_text, timestamp_text};

verus! {

/// Why a frame was not counted.
#[derive(Clone, Copy, Debug, PartialEq, Eq, Structural)]
pub enum Failure {
    /// The frame's time stamp is no date and time.
    NoDate,
    /// The counter of the frame's flow has reached the largest number it
    /// can hold.
    CounterFull,
}

/// Counts the frame `data`, which was captured `secs` seconds and `nanos`
/// nanoseconds after the Unix epoch, and returns the line to print for it
/// when `verbose` asks for one: `[<date and time>] <flow> -- <count>`.
///
/// The time stamp is turned into a date and time whether or not a line is
/// asked for. A frame whose time stamp is none is not counted, and neither
/// is a frame whose flow cannot be counted any higher; `flows` is then left
/// as it is.
pub fn process_frame(
    flows: &mut FlowAggregator,
    data: &[u8],
    secs: i64,
    nanos: u32,
    verbose: bool,
) -> (outcome: Result<Option<String>, Failure>)
    ensures
        match outcome {
            Ok(line) => {
                &&& well_formed(final(flows)@)
                &&& timestamp_text(secs, nanos) is Some
                &&& count_of(old(flows)@, frame_key(data@)) < u128::MAX
                &&& final(flows)@ == recorded(old(flows)@, frame_key(data@))
                &&& final(flows).history() == old(flows).history().push(frame_key(data@))
                &&& match line {
                    Some(text) => verbose && text@ == frame_line_text(
                        timestamp_text(secs, nanos)->0,
                        Tally {
                            flow: frame_key(data@),
                            count: count_of(old(flows)@, frame_key(data@)) + 1,
                        },
                    ),
                    None => !verbose,
                }
            },
            Err(Failure::NoDate) => {
                &&& timestamp_text(secs, nanos) is None
                &&& final(flows)@ == old(flows)@
                &&& final(flows).history() == old(flows).history()
            },
            Err(Failure::CounterFull) => {
                &&& timestamp_text(secs, nanos) is Some
                &&& count_of(old(flows)@, frame_key(data@)) == u128::MAX
                &&& final(flows)@ == old(flows)@
                &&& final(flows).history() == old(flows).history()
            },
        },
{
    let stamp = match format_timestamp(secs, nanos) {
        Some(stamp) => stamp,
        None => {
            return Err(Failure::NoDate);
        },
    };
    let seen = match flows.observe(data) {
        Some(seen) => seen,
        None => {
            return Err(Failure::CounterFull);
        },
    };
    if verbose {
        Ok(Some(frame_line(stamp.as_str(), &seen)))
    } else {
        Ok(None)
    }
}

} // verus!
