//! Clock time for the 4A group: the UTC date as a Modified Julian Day, the UTC hour and
//! minute, and the local offset from UTC, read through chrono and packed per EN 50067.
use vstd::prelude::*;

verus! {

/// A UTC calendar date and time of day, as chrono reports it.
pub struct UtcStamp {
    pub year: i32,
    pub month: u32,
    pub day: u32,
    pub hour: u32,
    pub minute: u32,
}

/// What a clock-time group carries.
#[derive(Clone, Copy, Debug, PartialEq, Eq)]
pub struct ClockTime {
    /// Modified Julian Day of the UTC date (days since 1858-11-17).
    pub mjd: u32,
    /// UTC hour, 0 to 23.
    pub hour: u32,
    /// UTC minute, 0 to 59.
    pub minute: u32,
    /// Local time minus UTC, in seconds.
    pub offset_secs: i32,
}

impl ClockTime {
    /// The fields lie in the ranges that a clock gives.
    pub open spec fn wf(&self) -> bool {
        &&& self.hour < 24
        &&& self.minute < 60
        &&& -86400 < self.offset_secs < 86400
    }
}

/// Day number of a date of the proleptic Gregorian calendar, counted from 1970-01-01.
pub open spec fn days_from_civil(year: int, month: int, day: int) -> int {
    let y = if month <= 2 { year - 1 } else { year };
    let era = y / 400;
    let yoe = y - era * 400;
    let mp = if month > 2 { month - 3 } else { month + 9 };
    let doy = (153 * mp + 2) / 5 + day - 1;
    let doe = yoe * 365 + yoe / 4 - yoe / 100 + doy;
    era * 146097 + doe - 719468
}

/// Days from 1858-11-17 (the Modified Julian Day epoch) to the given date.
pub open spec fn mjd_of(year: int, month: int, day: int) -> int {
    days_from_civil(year, month, day) - days_from_civil(1858, 11, 17)
}

/// Modified Julian Day of 2000-01-01, used where the clock's date cannot be read.
pub const MJD_2000_01_01: u32 = 51544;

/// Relies on chrono::Utc::now with Datelike::{year, month, day} and Timelike::{hour, minute}:
/// the current UTC date and time; chrono documents month 1..=12, day 1..=31, hour 0..=23
/// and minute 0..=59.
#[verifier::external_body]
fn utc_now() -> (r: UtcStamp)
    ensures
        1 <= r.month <= 12,
        1 <= r.day <= 31,
        r.hour < 24,
        r.minute < 60,
{
    let now = chrono::Utc::now();
    UtcStamp {
        year: chrono::Datelike::year(&now),
        month: chrono::Datelike::month(&now),
        day: chrono::Datelike::day(&now),
        hour: chrono::Timelike::hour(&now),
        minute: chrono::Timelike::minute(&now),
    }
}

/// Relies on chrono::Local::now and FixedOffset::local_minus_utc: the local offset from UTC
/// in seconds, which a FixedOffset keeps strictly between -86400 and 86400.
#[verifier::external_body]
fn local_offset_secs() -> (r: i32)
    ensures
        -86400 < r < 86400,
{
    chrono::Offset::fix(chrono::Local::now().offset()).local_minus_utc()
}

/// Relies on chrono::NaiveDate::from_ymd_opt and NaiveDate subtraction: the number of days
/// from 1858-11-17 to the given date of the proleptic Gregorian calendar, or `None` where
/// chrono holds no such date.
#[verifier::external_body]
fn days_since_mjd_epoch(year: i32, month: u32, day: u32) -> (r: Option<i64>)
    ensures
        r is Some ==> r->0 as int == mjd_of(year as int, month as int, day as int),
{
    let epoch = chrono::NaiveDate::from_ymd_opt(1858, 11, 17);
    match (chrono::NaiveDate::from_ymd_opt(year, month, day), epoch) {
        (Some(date), Some(epoch)) => Some((date - epoch).num_days()),
        _ => None,
    }
}

/// The Modified Julian Day that a day count gives: the count where it lies in
/// `0..=u32::MAX`, else 2000-01-01.
pub open spec fn mjd_or_default(days: Option<i64>) -> u32 {
    match days {
        Some(d) => if 0 <= d <= u32::MAX { d as u32 } else { MJD_2000_01_01 },
        None => MJD_2000_01_01,
    }
}

/// The clock time that a UTC stamp, its day count and a local offset make.
pub open spec fn stamp_clock(now: UtcStamp, days: Option<i64>, offset_secs: i32) -> ClockTime {
    ClockTime { mjd: mjd_or_default(days), hour: now.hour, minute: now.minute, offset_secs }
}

/// The clock time from a UTC stamp, its day count since 1858-11-17 (if it could be counted)
/// and the local offset.
pub fn clock_from(now: &UtcStamp, days: Option<i64>, offset_secs: i32) -> (r: ClockTime)
    requires
        now.hour < 24,
        now.minute < 60,
        -86400 < offset_secs < 86400,
    ensures
        r.wf(),
        r.mjd == mjd_or_default(days),
        r.hour == now.hour,
        r.minute == now.minute,
        r.offset_secs == offset_secs,
        r == stamp_clock(*now, days, offset_secs),
{
    let mjd = match days {
        Some(d) => {
            if 0 <= d && d <= u32::MAX as i64 {
                d as u32
            } else {
                MJD_2000_01_01
            }
        },
        None => MJD_2000_01_01,
    };
    ClockTime { mjd, hour: now.hour, minute: now.minute, offset_secs }
}

/// The clock time now: what `clock_from` makes of chrono's UTC stamp, the day count of its
/// date, and the local offset.
pub fn current_clock() -> (r: ClockTime)
    ensures
        r.wf(),
        exists|now: UtcStamp, days: Option<i64>|
            (days matches Some(d) ==> d as int == mjd_of(now.year as int, now.month as int, now.day as int))
            && r == #[trigger] stamp_clock(now, days, r.offset_secs),
{
    let now = utc_now();
    let offset = local_offset_secs();
    let days = days_since_mjd_epoch(now.year, now.month, now.day);
    clock_from(&now, days, offset)
}

/// The size of the local offset in whole half hours, rounded toward zero.
pub open spec fn half_hours(offset_secs: i32) -> int {
    let a = if offset_secs < 0 { -offset_secs } else { offset_secs as int };
    a / 1800
}

/// Blocks B, C and D of a 4A clock-time group: MJD bits 16-15 end block B, bits 14-0 with
/// the top hour bit fill block C, and block D holds the rest of the hour, the minute, the
/// offset sign (bit 5) and the offset size in half hours (bits 4-0).
pub open spec fn ct_blocks(tp: bool, pty: u8, t: ClockTime) -> Seq<u16> {
    let b = (4u16 << 12u16) | ((if tp { 1u16 } else { 0u16 }) << 10u16) | ((pty as u16) << 5u16)
        | (((t.mjd >> 15u32) & 0x3) as u16);
    let c = ((t.mjd << 1u32) as u16) | ((t.hour as u16) >> 4u16);
    let d = (((t.hour as u16) & 0xF) << 12u16) | ((t.minute as u16) << 6u16) | (half_hours(
        t.offset_secs,
    ) as u16 & 0x1F) | (if t.offset_secs <= -1800 { 0x20u16 } else { 0u16 });
    seq![b, c, d]
}

/// Fills blocks B, C and D of a 4A clock-time group; block A (the PI code) is left as it is.
pub fn fill_ct_group(blocks: &mut [u16; 4], tp: bool, pty: u8, t: &ClockTime)
    requires
        t.wf(),
        pty < 32,
    ensures
        final(blocks)@[0] == old(blocks)@[0],
        final(blocks)@.subrange(1, 4) == ct_blocks(tp, pty, *t),
{
    let tp_bit: u16 = if tp { 1 } else { 0 };
    blocks[1] = (4u16 << 12u16) | (tp_bit << 10u16) | ((pty as u16) << 5u16) | (((t.mjd >> 15u32) & 0x3) as u16);
    blocks[2] = ((t.mjd << 1u32) as u16) | ((t.hour as u16) >> 4u16);
    let abs: i32 = if t.offset_secs < 0 { -t.offset_secs } else { t.offset_secs };
    let halves: u16 = ((abs / 1800) as u16) & 0x1F;
    let sign: u16 = if t.offset_secs <= -1800 { 0x20 } else { 0 };
    blocks[3] = (((t.hour as u16) & 0xF) << 12u16) | ((t.minute as u16) << 6u16) | halves | sign;
    assert(blocks@.subrange(1, 4) =~= ct_blocks(tp, pty, *t));
}

} // verus!
