//! Wall-clock times of day written `HH:MM`, and the local time of an instant in
//! a named time zone.

use vstd::prelude::*;
use chrono::{DateTime, NaiveTime, Timelike};
use chrono_tz::Tz;
use crate::text::{two_digits, pad2, trim_start_seq, dec_number};

verus! {

/// An ASCII decimal digit.
pub open spec fn is_ascii_digit(c: char) -> bool {
    48 <= (c as u32) <= 57
}

/// How many ASCII digits begin `s`, counting at most two.
pub open spec fn lead_digits(s: Seq<char>) -> nat {
    if s.len() >= 2 && is_ascii_digit(s[0]) && is_ascii_digit(s[1]) {
        2
    } else if s.len() >= 1 && is_ascii_digit(s[0]) {
        1
    } else {
        0
    }
}

/// The hour and minute that chrono reads from `s` with the pattern `%H:%M`:
/// white space, one or two digits for the hour, `:`, white space, one or two
/// digits for the minute, and nothing after; the hour below 24 and the minute
/// below 60. `None` where chrono rejects `s`.
pub open spec fn clock_parse(s: Seq<char>) -> Option<(u32, u32)> {
    let a = trim_start_seq(s);
    let hl = lead_digits(a);
    let rest = a.subrange(hl as int, a.len() as int);
    let b = trim_start_seq(rest.drop_first());
    let ml = lead_digits(b);
    let h = dec_number(a.subrange(0, hl as int));
    let m = dec_number(b.subrange(0, ml as int));
    if hl > 0 && rest.len() > 0 && rest[0] == ':' && ml > 0 && ml == b.len() && h < 24 && m < 60 {
        Some((h as u32, m as u32))
    } else {
        None
    }
}

/// Whether chrono-tz knows `name` as a time zone identifier.
pub uninterp spec fn zone_known(name: Seq<char>) -> bool;

/// The local hour and minute at `t` seconds after the Unix epoch in zone `zone`,
/// or `None` where the zone is unknown or the instant out of chrono's range.
pub uninterp spec fn local_clock_at(zone: Seq<char>, t: int) -> Option<(u32, u32)>;

/// The canonical rendering `HH:MM` of a time of day.
pub open spec fn hhmm_text(h: u32, m: u32) -> Seq<char> {
    two_digits(h as nat) + seq![':'] + two_digits(m as nat)
}

/// The instants that chrono can place on a calendar, with room to spare.
pub open spec fn instant_in_range(t: int) -> bool {
    -0x100_0000_0000 <= t <= 0x100_0000_0000
}

/// Relies on chrono's `NaiveTime::parse_from_str` with the pattern `%H:%M`
/// (numeric items skip leading white space and read one or two ASCII digits,
/// the literal `:` must follow at once, trailing input is refused, and the hour
/// and minute are range-checked), and on `Timelike::hour` / `minute` of the
/// result.
#[verifier::external_body]
pub(crate) fn parse_clock(s: &str) -> (r: Option<(u32, u32)>)
    ensures
        r == clock_parse(s@),
        r matches Some(c) ==> c.0 < 24 && c.1 < 60,
{
    match NaiveTime::parse_from_str(s, "%H:%M") {
        Ok(t) => Some((t.hour(), t.minute())),
        Err(_) => None,
    }
}

/// Relies on chrono-tz's `FromStr` for `Tz`: an exact lookup of the name.
#[verifier::external_body]
pub(crate) fn is_known_zone(name: &str) -> (r: bool)
    ensures
        r == zone_known(name@),
{
    name.parse::<Tz>().is_ok()
}

/// Relies on chrono's `DateTime::with_timezone` into a chrono-tz zone, and on
/// `Timelike::hour` / `minute` of the local result. The zone name and the
/// instant are turned into chrono values by `Tz: FromStr` and
/// `DateTime::from_timestamp`, which fails only far outside `instant_in_range`.
#[verifier::external_body]
pub(crate) fn local_clock(zone: &str, t: i64) -> (r: Option<(u32, u32)>)
    ensures
        r == local_clock_at(zone@, t as int),
        r matches Some(c) ==> c.0 < 24 && c.1 < 60 && zone_known(zone@),
        zone_known(zone@) && instant_in_range(t as int) ==> r is Some,
{
    let tz: Tz = match zone.parse() {
        Ok(z) => z,
        Err(_) => return None,
    };
    let instant = DateTime::from_timestamp(t, 0)?;
    let local = instant.with_timezone(&tz);
    Some((local.hour(), local.minute()))
}

/// `HH:MM` for the given hour and minute.
pub fn format_hhmm(h: u32, m: u32) -> (r: String)
    requires
        h < 24,
        m < 60,
    ensures
        r@ == hhmm_text(h, m),
{
    let mut s = pad2(h);
    proof {
        reveal_strlit(":");
    }
    s.append(":");
    let mm = pad2(m);
    s.append(mm.as_str());
    s
}

/// The canonical `HH:MM` of what chrono reads from `s`, or `None` where it
/// reads nothing.
pub fn canonical_clock(s: &str) -> (r: Option<String>)
    ensures
        match clock_parse(s@) {
            Some(c) => r matches Some(t) && t@ == hhmm_text(c.0, c.1),
            None => r is None,
        },
{
    match parse_clock(s) {
        Some((h, m)) => Some(format_hhmm(h, m)),
        None => None,
    }
}

/// The local `HH:MM` at instant `t` in `zone`, or `None` where no local time
/// can be had.
pub fn local_hhmm(zone: &str, t: i64) -> (r: Option<String>)
    ensures
        match local_clock_at(zone@, t as int) {
            Some(c) => r matches Some(s) && s@ == hhmm_text(c.0, c.1),
            None => r is None,
        },
        r is Some ==> zone_known(zone@),
{
    match local_clock(zone, t) {
        Some((h, m)) => Some(format_hhmm(h, m)),
        None => None,
    }
}

} // verus!
