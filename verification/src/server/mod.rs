//! The file-backed server: its account rules, its database edits and the
//! prompt context it builds.
use crate::common::Database;
use crate::text::{decimal, decimal_text};
use vstd::prelude::*;

pub mod auth;
pub mod commenting;
pub mod gpt;
pub mod image;
pub mod routing;

verus! {

/// Microseconds in a minute, an hour, a day and a week.
pub const MINUTE: i64 = 60_000_000;

pub const HOUR: i64 = 3_600_000_000;

pub const DAY: i64 = 86_400_000_000;

pub const WEEK: i64 = 604_800_000_000;

/// `n` followed by a space and the unit, with an `s` unless `n` is one.
pub open spec fn count_text(n: nat, unit: Seq<char>) -> Seq<char> {
    decimal_text(n) + " "@ + unit + if n == 1 {
        Seq::<char>::empty()
    } else {
        "s"@
    }
}

/// `n` followed by a space and the unit, with an `s` unless `n` is one.
pub fn count_with_unit(n: u64, unit: &str) -> (text: String)
    ensures
        text@ == count_text(n as nat, unit@),
{
    proof {
        reveal_strlit(" ");
        reveal_strlit("s");
    }
    let mut text = decimal(n);
    text.append(" ");
    text.append(unit);
    if n != 1 {
        text.append("s");
    }
    assert(n == 1 ==> text@ =~= count_text(n as nat, unit@));
    text
}

/// How a length of time (in microseconds) reads: in whole weeks, days,
/// hours or minutes, the largest unit of which there is at least one.
pub open spec fn duration_text(micros: int) -> Seq<char> {
    if micros >= WEEK {
        count_text((micros / (WEEK as int)) as nat, "week"@)
    } else if micros >= DAY {
        count_text((micros / (DAY as int)) as nat, "day"@)
    } else if micros >= HOUR {
        count_text((micros / (HOUR as int)) as nat, "hour"@)
    } else if micros >= MINUTE {
        count_text((micros / (MINUTE as int)) as nat, "minute"@)
    } else {
        "less than a minute"@
    }
}

/// How a length of time (in microseconds) reads.
pub fn format_duration(micros: i64) -> (text: String)
    ensures
        text@ == duration_text(micros as int),
{
    if micros >= WEEK {
        count_with_unit((micros / WEEK) as u64, "week")
    } else if micros >= DAY {
        count_with_unit((micros / DAY) as u64, "day")
    } else if micros >= HOUR {
        count_with_unit((micros / HOUR) as u64, "hour")
    } else if micros >= MINUTE {
        count_with_unit((micros / MINUTE) as u64, "minute")
    } else {
        String::from_str("less than a minute")
    }
}

} // verus!
