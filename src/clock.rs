//! Calendar time in UTC, as plain values, and its text forms.

use vstd::prelude::*;
use vstd::string::StringExecFns;

use chrono::{Datelike, Timelike};

verus! {

/// A UTC date and time of day, to the second.
#[derive(Clone, Copy, Debug, PartialEq, Eq, Structural)]
pub struct UtcDateTime {
    pub year: i32,
    pub month: u32,
    pub day: u32,
    pub hour: u32,
    pub minute: u32,
    pub second: u32,
}

impl UtcDateTime {
    pub open spec fn wf(&self) -> bool {
        &&& 0 <= self.year <= 999999
        &&& 1 <= self.month <= 12
        &&& 1 <= self.day <= 31
        &&& self.hour <= 23
        &&& self.minute <= 59
        &&& self.second <= 59
    }
}

pub open spec fn digit_char(d: nat) -> char {
    if d == 0 { '0' }
    else if d == 1 { '1' }
    else if d == 2 { '2' }
    else if d == 3 { '3' }
    else if d == 4 { '4' }
    else if d == 5 { '5' }
    else if d == 6 { '6' }
    else if d == 7 { '7' }
    else if d == 8 { '8' }
    else { '9' }
}

/// Decimal digits of `v`, at least `width` of them (zero padded on the left).
pub open spec fn padded_digits(v: nat, width: nat) -> Seq<char>
    decreases width, v,
{
    if width == 0 && v == 0 {
        Seq::empty()
    } else {
        let w: nat = if width > 0 { (width - 1) as nat } else { 0 };
        padded_digits(v / 10, w).push(digit_char(v % 10))
    }
}

fn digit_text(d: u32) -> (r: &'static str)
    requires
        d < 10,
    ensures
        r@ == seq![digit_char(d as nat)],
{
    proof {
        reveal_strlit("0");
        reveal_strlit("1");
        reveal_strlit("2");
        reveal_strlit("3");
        reveal_strlit("4");
        reveal_strlit("5");
        reveal_strlit("6");
        reveal_strlit("7");
        reveal_strlit("8");
        reveal_strlit("9");
    }
    if d == 0 { "0" }
    else if d == 1 { "1" }
    else if d == 2 { "2" }
    else if d == 3 { "3" }
    else if d == 4 { "4" }
    else if d == 5 { "5" }
    else if d == 6 { "6" }
    else if d == 7 { "7" }
    else if d == 8 { "8" }
    else { "9" }
}

/// Appends the decimal digits of `v`, zero padded to at least `width`.
pub fn push_padded(out: &mut String, v: u32, width: u32)
    ensures
        final(out)@ == old(out)@ + padded_digits(v as nat, width as nat),
    decreases width, v,
{
    if width == 0 && v == 0 {
        assert(old(out)@ + Seq::<char>::empty() =~= old(out)@);
        return;
    }
    let w: u32 = if width > 0 { width - 1 } else { 0 };
    push_padded(out, v / 10, w);
    out.append(digit_text(v % 10));
    assert(old(out)@ + padded_digits(v as nat, width as nat) =~= old(out)@ + padded_digits(
        (v / 10) as nat,
        w as nat,
    ) + seq![digit_char((v % 10) as nat)]);
}

/// The calendar date as `YYYY-MM-DD`.
pub open spec fn date_text(t: UtcDateTime) -> Seq<char> {
    padded_digits(t.year as nat, 4) + seq!['-'] + padded_digits(t.month as nat, 2) + seq!['-']
        + padded_digits(t.day as nat, 2)
}

/// The row audit timestamp form `YYYY-MM-DD HH:MM:SS`.
pub open spec fn timestamp_text(t: UtcDateTime) -> Seq<char> {
    date_text(t) + seq![' '] + padded_digits(t.hour as nat, 2) + seq![':'] + padded_digits(
        t.minute as nat,
        2,
    ) + seq![':'] + padded_digits(t.second as nat, 2)
}

/// Appends `YYYY-MM-DD`.
pub fn push_date(out: &mut String, t: &UtcDateTime)
    requires
        t.wf(),
    ensures
        final(out)@ == old(out)@ + date_text(*t),
{
    proof {
        reveal_strlit("-");
    }
    push_padded(out, t.year as u32, 4);
    out.append("-");
    push_padded(out, t.month, 2);
    out.append("-");
    push_padded(out, t.day, 2);
    assert(final(out)@ =~= old(out)@ + date_text(*t));
}

/// The text form `YYYY-MM-DD HH:MM:SS` of `t`.
pub fn format_timestamp(t: &UtcDateTime) -> (r: String)
    requires
        t.wf(),
    ensures
        r@ == timestamp_text(*t),
{
    proof {
        reveal_strlit(" ");
        reveal_strlit(":");
    }
    let mut out = String::new();
    push_date(&mut out, t);
    out.append(" ");
    push_padded(&mut out, t.hour, 2);
    out.append(":");
    push_padded(&mut out, t.minute, 2);
    out.append(":");
    push_padded(&mut out, t.second, 2);
    assert(out@ =~= timestamp_text(*t));
    out
}

/// Relies on chrono's `Utc::now` and the `Datelike` / `Timelike` accessors:
/// month 1 to 12, day 1 to 31, hour 0 to 23, minute and second 0 to 59
/// (a leap second is reported as second 59). `Utc::now` panics on a system
/// clock set before 1970, so a returned year is at least 1970; chrono's
/// dates end before year 262143.
#[verifier::external_body]
pub(crate) fn utc_now() -> (r: UtcDateTime)
    ensures
        1970 <= r.year <= 262143,
        r.wf(),
{
    let now = chrono::Utc::now();
    UtcDateTime {
        year: now.year(),
        month: now.month(),
        day: now.day(),
        hour: now.hour(),
        minute: now.minute(),
        second: now.second(),
    }
}

/// The current UTC time as an audit timestamp, `YYYY-MM-DD HH:MM:SS`.
pub fn current_timestamp() -> (r: String)
    ensures
        exists|t: UtcDateTime| t.wf() && r@ == timestamp_text(t),
{
    let t = utc_now();
    format_timestamp(&t)
}

} // verus!
