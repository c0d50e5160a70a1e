//! Track durations: computing them from a decoded sample count and
//! writing them as `m:ss` / `h:mm:ss` text.
use vstd::prelude::*;
use crate::text::{decimal, decimal_pad2, push_char, push_decimal, push_decimal_pad2};

verus! {

/// The text of a duration of `total` whole seconds: minutes below ten get a
/// leading `0` (`"03:07"`), an hour or more is written `h:mm:ss`, anything
/// in between `mm:ss`.
pub open spec fn duration_text(total: nat) -> Seq<char> {
    let mins = total / 60;
    let secs = total % 60;
    if mins < 10 {
        seq!['0'] + decimal(mins) + seq![':'] + decimal_pad2(secs)
    } else if mins >= 60 {
        decimal(mins / 60) + seq![':'] + decimal_pad2(mins % 60) + seq![':'] + decimal_pad2(secs)
    } else {
        decimal(mins) + seq![':'] + decimal_pad2(secs)
    }
}

/// Formats a duration given in whole seconds, as the control bar shows it.
pub fn format_duration_enhanced(total_seconds: u32) -> (text: String)
    ensures
        text@ == duration_text(total_seconds as nat),
{
    let mins: u64 = (total_seconds / 60) as u64;
    let secs: u64 = (total_seconds % 60) as u64;
    let mut s = String::new();
    if mins < 10 {
        push_char(&mut s, '0');
        push_decimal(&mut s, mins);
        push_char(&mut s, ':');
        push_decimal_pad2(&mut s, secs);
    } else if mins >= 60 {
        push_decimal(&mut s, mins / 60);
        push_char(&mut s, ':');
        push_decimal_pad2(&mut s, mins % 60);
        push_char(&mut s, ':');
        push_decimal_pad2(&mut s, secs);
    } else {
        push_decimal(&mut s, mins);
        push_char(&mut s, ':');
        push_decimal_pad2(&mut s, secs);
    }
    assert(s@ =~= duration_text(total_seconds as nat));
    s
}

/// Whole seconds of a duration of `ms` milliseconds, saturated to the range
/// of `u32` (as a float-to-`u32` conversion of the seconds behaves).
pub open spec fn whole_seconds(ms: nat) -> nat {
    if ms / 1000 > u32::MAX { u32::MAX as nat } else { ms / 1000 }
}

/// Whole seconds of a duration given in milliseconds.
pub fn seconds_of_millis(ms: u64) -> (secs: u32)
    ensures
        secs == whole_seconds(ms as nat),
{
    let s = ms / 1000;
    if s > u32::MAX as u64 {
        u32::MAX
    } else {
        s as u32
    }
}

/// Milliseconds (rounded down) that `total_samples` samples last at
/// `sample_rate` samples per second; `None` when the rate is zero or the
/// result does not fit in a `u64`.
pub fn duration_ms_from_samples(total_samples: u64, sample_rate: u32) -> (ms: Option<u64>)
    ensures
        ms == (if sample_rate == 0 || (total_samples as nat) * 1000 / (sample_rate as nat) > u64::MAX {
            None::<u64>
        } else {
            Some(((total_samples as nat) * 1000 / (sample_rate as nat)) as u64)
        }),
{
    if sample_rate == 0 {
        return None;
    }
    let scaled: u128 = (total_samples as u128) * 1000;
    let q: u128 = scaled / (sample_rate as u128);
    if q > u64::MAX as u128 {
        None
    } else {
        Some(q as u64)
    }
}

} // verus!
