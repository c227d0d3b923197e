//! The countdown message bands.
//!
//! A countdown's remaining time is a signed number of milliseconds; the
//! band is chosen by the whole-second count `r` (truncated toward zero,
//! the way elapsed-time arithmetic reports whole seconds):
//! - `r > 86400`: total days plus a wall-clock `HH:MM:SS` remainder;
//! - `1 <= r <= 86400`: `HH:MM:SS.mmm` with millisecond precision;
//! - `r == 0`: the moment itself, which also fires a notification;
//! - `r < 0`: how many whole seconds ago the target passed.

use vstd::prelude::*;
use vstd::string::StrSliceExecFns;
use vstd::string::StringExecFns;
use crate::textfmt::{dec_digits, zero_pad2, zero_pad3, u64_to_dec, zero_pad2_str, zero_pad3_str};

verus! {

/// Largest magnitude of a remaining-milliseconds value the formatter is
/// asked about; wide enough for any pair of representable datetimes.
pub const REMAINING_MS_BOUND: i64 = 0x7fffffffffffff;

/// `ms / 1000` truncated toward zero: the whole seconds of a signed
/// millisecond count.
pub open spec fn whole_seconds(ms: int) -> int {
    if ms >= 0 {
        ms / 1000
    } else {
        -((-ms) / 1000)
    }
}

/// The rendered message for a countdown titled `title` with `ms`
/// milliseconds remaining (negative once the target has passed).
pub open spec fn message_for(title: Seq<char>, ms: int) -> Seq<char> {
    let r = whole_seconds(ms);
    if r > 86400 {
        title + ": There are "@ + dec_digits((r / 86400) as nat) + " days, "@ + zero_pad2(
            ((r / 3600) % 24) as nat,
        ) + ":"@ + zero_pad2(((r / 60) % 60) as nat) + ":"@ + zero_pad2((r % 60) as nat)
            + " secs left."@
    } else if r >= 1 {
        title + ": There are "@ + zero_pad2(((r / 3600) % 24) as nat) + ":"@ + zero_pad2(
            ((r / 60) % 60) as nat,
        ) + ":"@ + zero_pad2((r % 60) as nat) + "."@ + zero_pad3((ms % 1000) as nat)
            + " secs left."@
    } else if r == 0 {
        title + ": Now is the time!"@
    } else {
        title + ": The datetime was "@ + dec_digits((-r) as nat) + " seconds ago."@
    }
}

/// Whole seconds of a signed millisecond count, truncated toward zero.
pub fn whole_seconds_exec(ms: i64) -> (r: i64)
    requires
        -REMAINING_MS_BOUND <= ms <= REMAINING_MS_BOUND,
    ensures
        r == whole_seconds(ms as int),
{
    if ms >= 0 {
        ((ms as u64) / 1000) as i64
    } else {
        let ago: u64 = (-ms) as u64;
        -((ago / 1000) as i64)
    }
}

/// Render the message for one countdown: the band text `message_for`
/// prescribes, exactly.
pub fn format_message(title: &str, ms: i64) -> (s: String)
    requires
        -REMAINING_MS_BOUND <= ms <= REMAINING_MS_BOUND,
    ensures
        s@ == message_for(title@, ms as int),
{
    let r = whole_seconds_exec(ms);
    if r > 86400 {
        let secs: u64 = ms as u64 / 1000;
        let mut s = title.to_owned();
        s.append(": There are ");
        let days = u64_to_dec(secs / 86400);
        s.append(days.as_str());
        s.append(" days, ");
        let hh = zero_pad2_str((secs / 3600) % 24);
        s.append(hh.as_str());
        s.append(":");
        let mm = zero_pad2_str((secs / 60) % 60);
        s.append(mm.as_str());
        s.append(":");
        let ss = zero_pad2_str(secs % 60);
        s.append(ss.as_str());
        s.append(" secs left.");
        proof {
            assert(s@ =~= message_for(title@, ms as int));
        }
        s
    } else if r >= 1 {
        let secs: u64 = ms as u64 / 1000;
        let millis: u64 = ms as u64 % 1000;
        let mut s = title.to_owned();
        s.append(": There are ");
        let hh = zero_pad2_str((secs / 3600) % 24);
        s.append(hh.as_str());
        s.append(":");
        let mm = zero_pad2_str((secs / 60) % 60);
        s.append(mm.as_str());
        s.append(":");
        let ss = zero_pad2_str(secs % 60);
        s.append(ss.as_str());
        s.append(".");
        let mmm = zero_pad3_str(millis);
        s.append(mmm.as_str());
        s.append(" secs left.");
        proof {
            assert(s@ =~= message_for(title@, ms as int));
        }
        s
    } else if r == 0 {
        let mut s = title.to_owned();
        s.append(": Now is the time!");
        proof {
            assert(s@ =~= message_for(title@, ms as int));
        }
        s
    } else {
        let ago_secs: u64 = ((-ms) as u64) / 1000;
        let mut s = title.to_owned();
        s.append(": The datetime was ");
        let n = u64_to_dec(ago_secs);
        s.append(n.as_str());
        s.append(" seconds ago.");
        proof {
            assert(s@ =~= message_for(title@, ms as int));
        }
        s
    }
}

} // verus!
