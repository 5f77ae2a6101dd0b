//! The timestamp a task line carries: day/month/year hour:minute, rendered
//! by verified code from calendar fields that the clock wrapper supplies.

use vstd::prelude::*;
use chrono::{Datelike, Timelike};
use crate::text::{dec_seq, pad2, pad4, push_dec, push_pad2, push_pad4};

verus! {

/// The rendered year: four zero-padded digits for the years the calendar
/// normally shows; more digits for a year past 9999; a minus sign and four
/// or more digits for a year before 0.
pub open spec fn year_text(y: int) -> Seq<char> {
    if 0 <= y && y <= 9999 {
        pad4(y)
    } else if y > 9999 {
        dec_seq(y)
    } else {
        seq!['-'] + pad4(-y)
    }
}

/// The timestamp as the task line carries it: `DD/MM/YYYY HH:MM`.
pub open spec fn timestamp_text(day: int, month: int, year: int, hour: int, minute: int) -> Seq<
    char,
> {
    pad2(day) + seq!['/'] + pad2(month) + seq!['/'] + year_text(year) + seq![' '] + pad2(hour)
        + seq![':'] + pad2(minute)
}

/// Renders a timestamp from calendar fields.
pub fn format_timestamp(day: u32, month: u32, year: i32, hour: u32, minute: u32) -> (r: Vec<char>)
    requires
        day < 100,
        month < 100,
        hour < 100,
        minute < 100,
        -9999 <= year,
    ensures
        r@ == timestamp_text(day as int, month as int, year as int, hour as int, minute as int),
{
    let mut out: Vec<char> = Vec::new();
    push_pad2(&mut out, day);
    out.push('/');
    push_pad2(&mut out, month);
    out.push('/');
    if 0 <= year && year <= 9999 {
        push_pad4(&mut out, year as u32);
    } else if year > 9999 {
        push_dec(&mut out, year as u32);
    } else {
        out.push('-');
        let m: u32 = (-(year as i64)) as u32;
        push_pad4(&mut out, m);
    }
    out.push(' ');
    push_pad2(&mut out, hour);
    out.push(':');
    push_pad2(&mut out, minute);
    proof {
        assert(out@ =~= timestamp_text(
            day as int,
            month as int,
            year as int,
            hour as int,
            minute as int,
        ));
    }
    out
}

/// Relies on chrono: `Local::now` reads the current local time, and the
/// `Datelike`/`Timelike` accessors document their ranges — month 1 to 12,
/// day 1 to 31, hour 0 to 23, minute 0 to 59.  Nothing is promised of the
/// year, and the value differs from call to call.
#[verifier::external_body]
pub fn local_now_parts() -> (r: (i32, u32, u32, u32, u32))
    ensures
        1 <= r.1 <= 12,
        1 <= r.2 <= 31,
        r.3 <= 23,
        r.4 <= 59,
{
    let now = chrono::Local::now();
    (now.year(), now.month(), now.day(), now.hour(), now.minute())
}

/// The current local time, rendered for the task line.  Whatever moment the
/// clock reports, the result is a well-formed timestamp of that moment's
/// fields; a year outside the four-digit calendar range (never reached on a
/// sanely-set clock) renders as year 0.
pub fn timestamp_now() -> (r: Vec<char>)
    ensures
        exists|day: int, month: int, year: int, hour: int, minute: int|
            1 <= month <= 12 && 1 <= day <= 31 && 0 <= hour <= 23 && 0 <= minute <= 59 && r@
                == timestamp_text(day, month, year, hour, minute),
{
    let (year, month, day, hour, minute) = local_now_parts();
    let y: i32 = if -9999 <= year {
        year
    } else {
        0
    };
    let r = format_timestamp(day, month, y, hour, minute);
    proof {
        assert(1 <= month as int <= 12 && 1 <= day as int <= 31 && 0 <= hour as int <= 23 && 0
            <= minute as int <= 59 && r@ == timestamp_text(
            day as int,
            month as int,
            y as int,
            hour as int,
            minute as int,
        ));
    }
    r
}

} // verus!
