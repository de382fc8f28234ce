//! Background work: which events start processing, and the windows of the
//! periodic cleanup.
use vstd::prelude::*;
use crate::text::{append_i64, append_str, int_text, str_eq};

verus! {

/// Only the completion of an upload starts its processing.
pub fn starts_processing(event_type: &str) -> (r: bool)
    ensures
        r == (event_type@ == "completed"@),
{
    str_eq(event_type, "completed")
}

/// Audit entries are pruned only when a retention is configured.
pub fn audit_pruning_enabled(retention_days: i64) -> (r: bool)
    ensures
        r == (retention_days > 0),
{
    retention_days > 0
}

/// The SQLite date modifier `-{n}{unit}` (unit with its leading space) of a
/// retention or look-back window.
pub open spec fn window_modifier(n: i64, unit: Seq<char>) -> Seq<char> {
    "-"@ + int_text(n as int) + unit
}

/// The modifier of a window of `days` days.
pub fn days_window(days: i64) -> (r: String)
    ensures
        r@ == window_modifier(days, " days"@),
{
    let mut out = "-".to_owned();
    append_i64(&mut out, days);
    append_str(&mut out, " days");
    out
}

/// The modifier of a window of `minutes` minutes.
pub fn minutes_window(minutes: i64) -> (r: String)
    ensures
        r@ == window_modifier(minutes, " minutes"@),
{
    let mut out = "-".to_owned();
    append_i64(&mut out, minutes);
    append_str(&mut out, " minutes");
    out
}

/// How far back the webhook dispatcher looks for events it missed.
pub const MISSED_EVENT_WINDOW_MINUTES: i64 = 15;

/// At most this many deliveries run at once.
pub const MAX_CONCURRENT_DISPATCHES: usize = 32;

} // verus!
