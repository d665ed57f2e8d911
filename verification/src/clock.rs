//! The current local time as a timestamp token.
//!
//! The time itself comes from chrono; the library only relies on the shape of
//! the rendered text, so that a timestamp always fits into the third
//! whitespace-delimited field of a log line.

use vstd::prelude::*;
use crate::record::{format_record, spec_record_line, Reading};

verus! {

/// Whether `s` can stand as a single whitespace-delimited field of a log
/// line: it holds no line feed and no space.
pub open spec fn timestamp_clean(s: Seq<u8>) -> bool {
    forall|i: int| 0 <= i < s.len() ==> s[i] != 10 && s[i] != 32
}

/// Relies on chrono's `Local::now` and `DateTime::to_rfc3339`: the rendered
/// local date-time is a nonempty string of ASCII digits and the punctuation
/// `-`, `:`, `T`, `.`, `+`, so it holds no space and no line feed. Which
/// instant it renders depends on the wall clock, so nothing more is stated.
#[verifier::external_body]
fn now_timestamp() -> (ts: Vec<u8>)
    ensures
        ts@.len() > 0,
        timestamp_clean(ts@),
{
    chrono::Local::now().to_rfc3339().into_bytes()
}

/// Renders reading `r` as one log line stamped with the current local time:
/// pressure, temperature, then a timestamp field. Whatever instant the clock
/// returned, the line is the exact rendering of `r` with some nonempty
/// timestamp token free of spaces and line feeds.
pub fn timestamped_record(r: &Reading) -> (line: Vec<u8>)
    ensures
        exists|ts: Seq<u8>|
            ts.len() > 0 && timestamp_clean(ts) && line@ == #[trigger] spec_record_line(
                *r,
                Some(ts),
            ),
{
    let ts = now_timestamp();
    let line = format_record(r, Some(&ts));
    proof {
        assert(line@ == spec_record_line(*r, Some(ts@)));
    }
    line
}

} // verus!
