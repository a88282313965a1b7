//! The registry of downloads started from the command line: one entry per
//! download, looked up by id or URL.

use vstd::prelude::*;
use crate::paths::{path_join, path_join_of};
use crate::engine::verify::hex_digit;
use crate::text::{decimal, push_char, push_decimal, push_str, push_zero_padded, str_equal, string_from_str, zero_padded};

verus! {

/// Where a registered download stands.
#[derive(Debug, Clone, Copy, PartialEq, Eq, Structural)]
pub enum EntryStatus {
    Downloading,
    Completed,
    Cancelled,
    Failed,
}

pub open spec fn status_text(s: EntryStatus) -> Seq<char> {
    match s {
        EntryStatus::Downloading => "downloading"@,
        EntryStatus::Completed => "completed"@,
        EntryStatus::Cancelled => "cancelled"@,
        EntryStatus::Failed => "failed"@,
    }
}

impl EntryStatus {
    /// The status as it is printed and stored.
    pub fn name(&self) -> (s: &'static str)
        ensures
            s@ == status_text(*self),
    {
        match self {
            EntryStatus::Downloading => "downloading",
            EntryStatus::Completed => "completed",
            EntryStatus::Cancelled => "cancelled",
            EntryStatus::Failed => "failed",
        }
    }
}

/// One registered download.
#[derive(Debug, Clone)]
pub struct Entry {
    pub id: String,
    pub url: String,
    pub dest: String,
    pub final_dest: Option<String>,
    pub status: EntryStatus,
    pub pid: u32,
    pub started_at: String,
    pub updated_at: String,
}

/// All registered downloads, oldest first.
#[derive(Debug, Clone)]
pub struct Registry {
    pub entries: Vec<Entry>,
}

/// Whether `e` is the entry `needle` names, by id or by URL.
pub open spec fn names_entry(e: Entry, needle: Seq<char>) -> bool {
    e.id@ == needle || e.url@ == needle
}

/// The position of the newest entry among the first `n` that `needle` names.
pub open spec fn last_named(entries: Seq<Entry>, needle: Seq<char>, n: int) -> Option<int>
    decreases n,
{
    if n <= 0 {
        None
    } else if names_entry(entries[n - 1], needle) {
        Some(n - 1)
    } else {
        last_named(entries, needle, n - 1)
    }
}

/// The entries that are still downloading, in order.
pub open spec fn active_entries(entries: Seq<Entry>) -> Seq<Entry> {
    entries.filter(|e: Entry| e.status == EntryStatus::Downloading)
}

impl Default for Registry {
    fn default() -> (r: Registry)
        ensures
            r.entries@.len() == 0,
    {
        Registry { entries: Vec::new() }
    }
}

impl Registry {
    /// The newest entry whose id or URL is `needle`.
    pub fn by_id_or_url(&self, needle: &str) -> (found: Option<&Entry>)
        ensures
            match last_named(self.entries@, needle@, self.entries@.len() as int) {
                Some(i) => found == Some(&self.entries@[i]),
                None => found is None,
            },
    {
        let mut n: usize = self.entries.len();
        while n > 0
            invariant
                n <= self.entries@.len(),
                last_named(self.entries@, needle@, self.entries@.len() as int) == last_named(
                    self.entries@,
                    needle@,
                    n as int,
                ),
            decreases n,
        {
            let e = &self.entries[n - 1];
            if str_equal(e.id.as_str(), needle) || str_equal(e.url.as_str(), needle) {
                return Some(e);
            }
            n = n - 1;
        }
        None
    }

    /// The entries still downloading, oldest first.
    pub fn active(&self) -> (out: Vec<&Entry>)
        ensures
            out@.map_values(|e: &Entry| *e) == active_entries(self.entries@),
    {
        let mut out: Vec<&Entry> = Vec::new();
        let mut i: usize = 0;
        while i < self.entries.len()
            invariant
                i <= self.entries@.len(),
                out@.map_values(|e: &Entry| *e) == active_entries(self.entries@.take(i as int)),
            decreases self.entries.len() - i,
        {
            let e = &self.entries[i];
            proof {
                reveal_with_fuel(Seq::filter, 1);
                assert(self.entries@.take(i + 1).drop_last() =~= self.entries@.take(i as int));
            }
            if e.status == EntryStatus::Downloading {
                out.push(e);
            }
            i = i + 1;
            assert(out@.map_values(|e: &Entry| *e) =~= active_entries(self.entries@.take(i as int)));
        }
        assert(self.entries@.take(i as int) =~= self.entries@);
        out
    }
}

/// The control socket of download `id` under the data directory:
/// `<data_dir>/run/<id>.sock`.
pub fn socket_path(data_dir: &str, id: &str) -> (p: String)
    ensures
        p@ == path_join_of(path_join_of(data_dir@, "run"@), id@ + ".sock"@),
{
    let run = path_join(data_dir, "run");
    let mut leaf = string_from_str(id);
    push_str(&mut leaf, ".sock");
    path_join(run.as_str(), leaf.as_str())
}


/// Whether `y` is a leap year of the Gregorian calendar.
pub open spec fn is_leap(y: int) -> bool {
    y % 4 == 0 && (y % 100 != 0 || y % 400 == 0)
}

/// The number of days of month `m` of year `y`.
pub open spec fn days_in_month(y: int, m: int) -> int {
    if m == 2 {
        if is_leap(y) { 29 } else { 28 }
    } else if m == 4 || m == 6 || m == 9 || m == 11 {
        30
    } else {
        31
    }
}

proof fn lemma_year_of_era(doe: u32)
    by (bit_vector)
    requires
        doe < 146097,
    ensures
        ({
            let yoe = (doe - doe / 1460 + doe / 36524 - doe / 146096) / 365;
            let start = 365 * yoe + yoe / 4 - yoe / 100;
            &&& yoe <= 399
            &&& start <= doe
            &&& doe - start <= 365
            &&& ((yoe + 1) % 4 != 0 || ((yoe + 1) % 100 == 0 && (yoe + 1) % 400 != 0)) ==> doe - start <= 364
        }),
{
}

proof fn lemma_month_of_year(doy: u32)
    by (bit_vector)
    requires
        doy <= 365,
    ensures
        ({
            let mp = (5 * doy + 2) / 153;
            let first = (153 * mp + 2) / 5;
            &&& mp <= 11
            &&& first <= doy
            &&& mp == 11 ==> first == 337
            &&& mp < 11 ==> doy - first + 1 <= (if mp == 1 || mp == 3 || mp == 6 || mp == 8 { 30u32 } else { 31u32 })
        }),
{
}

/// The day number (days since 1970-01-01) of the date `y`-`m`-`d`, counted
/// in 400-year eras of 146097 days whose years start on March 1.
pub open spec fn days_from_civil(y: int, m: int, d: int) -> int {
    let yy = if m <= 2 { y - 1 } else { y };
    let era = yy / 400;
    let yoe = yy - era * 400;
    let mp = if m > 2 { m - 3 } else { m + 9 };
    let doy = (153 * mp + 2) / 5 + d - 1;
    let doe = 365 * yoe + yoe / 4 - yoe / 100 + doy;
    era * 146097 + doe - 719468
}

proof fn lemma_floor_div(z: int, q: int, r: int, n: int)
    requires
        n > 0,
        z == q * n + r,
        0 <= r < n,
    ensures
        z / n == q,
        z % n == r,
{
    vstd::arithmetic::div_mod::lemma_fundamental_div_mod_converse(z, n, q, r);
}

proof fn lemma_leap_shift(y: int, era: int)
    ensures
        is_leap(y + era * 400) == is_leap(y),
{
    vstd::arithmetic::div_mod::lemma_mod_multiples_vanish(era * 100, y, 4);
    vstd::arithmetic::div_mod::lemma_mod_multiples_vanish(era * 4, y, 100);
    vstd::arithmetic::div_mod::lemma_mod_multiples_vanish(era, y, 400);
    assert(era * 400 == 4 * (era * 100)) by (nonlinear_arith);
    assert(era * 400 == 100 * (era * 4)) by (nonlinear_arith);
    assert(era * 400 == 400 * era) by (nonlinear_arith);
}

/// The calendar date of day number `days` (days since 1970-01-01): the
/// year, the month (1 to 12) and the day of the month.
pub fn civil_from_days(days: i64) -> (date: (i64, u32, u32))
    requires
        days + 719468 <= i64::MAX,
        days + 719468 >= i64::MIN + 146096,
    ensures
        1 <= date.1 <= 12,
        1 <= date.2 <= days_in_month(date.0 as int, date.1 as int),
        days_from_civil(date.0 as int, date.1 as int, date.2 as int) == days,
        days >= 0 ==> date.0 >= 0,
{
    let z: i128 = days as i128 + 719468;
    let era: i128 = if z >= 0 {
        z / 146097
    } else {
        -((146096 - z) / 146097)
    };
    proof {
        if z < 0 {
            let w = 146096 - z;
            let q = w / 146097;
            let r = w % 146097;
            vstd::arithmetic::div_mod::lemma_fundamental_div_mod(w, 146097);
            assert(z == (-q) * 146097 + (146096 - r)) by (nonlinear_arith)
                requires
                    w == 146096 - z,
                    w == 146097 * q + r;
            lemma_floor_div(z as int, -q, 146096 - r, 146097);
        } else {
            vstd::arithmetic::div_mod::lemma_fundamental_div_mod(z as int, 146097);
        }
    }
    let doe_wide: i128 = z - era * 146097;
    assert(0 <= doe_wide < 146097) by {
        vstd::arithmetic::div_mod::lemma_fundamental_div_mod(z as int, 146097);
    }
    let doe: u32 = doe_wide as u32;
    proof {
        lemma_year_of_era(doe);
    }
    let yoe: u32 = (doe - doe / 1460 + doe / 36524 - doe / 146096) / 365;
    let doy: u32 = doe - (365 * yoe + yoe / 4 - yoe / 100);
    proof {
        lemma_month_of_year(doy);
    }
    let mp: u32 = (5 * doy + 2) / 153;
    let d: u32 = doy - (153 * mp + 2) / 5 + 1;
    let m: u32 = if mp < 10 { mp + 3 } else { mp - 9 };
    let y_wide: i128 = yoe as i128 + era * 400;
    let year_wide: i128 = if m <= 2 { y_wide + 1 } else { y_wide };
    proof {
        let yy = y_wide as int;
        lemma_floor_div(yy, era as int, yoe as int, 400);
        assert((153 * mp + 2) / 5 + d - 1 == doy);
        if m == 2 {
            lemma_leap_shift(yoe + 1, era as int);
            assert(year_wide == (yoe + 1) + era * 400);
        }
        assert(era * 146097 + doe - 719468 == days);
        assert(-0x4_0000_0000_0000 < era < 0x4_0000_0000_0000) by (nonlinear_arith)
            requires
                era * 146097 + doe_wide == z,
                0 <= doe_wide < 146097,
                -0x8000_0000_0000_0000 <= z <= 0x8000_0000_0000_0000;
    }
    (year_wide as i64, m, d)
}

proof fn lemma_year_from_start(yoe: u32, doy: u32, doe: u32)
    requires
        yoe <= 399,
        doy <= 365,
        ((yoe + 1) % 4 != 0 || ((yoe + 1) % 100 == 0 && (yoe + 1) % 400 != 0)) ==> doy <= 364,
        doe == 365 * yoe + yoe / 4 - yoe / 100 + doy,
    ensures
        doe < 146097,
        (doe - doe / 1460 + doe / 36524 - doe / 146096) / 365 == yoe,
{
}

proof fn lemma_month_from_day_of_year(mp: u32, d: u32, doy: u32)
    requires
        mp <= 11,
        1 <= d <= 31,
        (mp == 1 || mp == 3 || mp == 6 || mp == 8) ==> d <= 30,
        mp == 11 ==> d <= 29,
        doy + 1 == (153 * mp + 2) / 5 + d,
    ensures
        (5 * doy + 2) / 153 == mp,
        mp < 11 ==> doy <= 336,
        mp == 11 ==> doy >= 336,
{
}

/// The pieces `days_from_civil` splits a valid date into: the era, the
/// year of the era, the March-based month and the day of that year.
proof fn lemma_civil_parts(y: int, m: int, d: int) -> (parts: (int, int, int, int))
    requires
        1 <= m <= 12,
        1 <= d <= days_in_month(y, m),
    ensures
        ({
            let (era, yoe, mp, doy) = parts;
            let yy = if m <= 2 { y - 1 } else { y };
            &&& yy == era * 400 + yoe
            &&& 0 <= yoe <= 399
            &&& mp == (if m > 2 { m - 3 } else { m + 9 })
            &&& doy == (153 * mp + 2) / 5 + d - 1
            &&& 0 <= doy <= 365
            &&& !is_leap(yoe + 1) ==> doy <= 364
            &&& days_from_civil(y, m, d) == era * 146097 + (365 * yoe + yoe / 4 - yoe / 100 + doy) - 719468
            &&& (5 * doy + 2) / 153 == mp
        }),
{
    let yy = if m <= 2 { y - 1 } else { y };
    let era = yy / 400;
    let yoe = yy % 400;
    vstd::arithmetic::div_mod::lemma_fundamental_div_mod(yy, 400);
    let mp = if m > 2 { m - 3 } else { m + 9 };
    let doy = (153 * mp + 2) / 5 + d - 1;
    lemma_month_from_day_of_year(mp as u32, d as u32, doy as u32);
    if m == 2 {
        lemma_leap_shift(yoe + 1, era);
        assert(y == (yoe + 1) + era * 400);
    }
    (era, yoe, mp, doy)
}

/// Day numbers tell dates apart: two valid dates with the same day number
/// are the same date, so the date `civil_from_days` returns for a day
/// number is the only valid one it could return.
pub proof fn lemma_days_from_civil_injective(y1: int, m1: int, d1: int, y2: int, m2: int, d2: int)
    requires
        1 <= m1 <= 12,
        1 <= d1 <= days_in_month(y1, m1),
        1 <= m2 <= 12,
        1 <= d2 <= days_in_month(y2, m2),
        days_from_civil(y1, m1, d1) == days_from_civil(y2, m2, d2),
    ensures
        y1 == y2,
        m1 == m2,
        d1 == d2,
{
    let (era1, yoe1, mp1, doy1) = lemma_civil_parts(y1, m1, d1);
    let (era2, yoe2, mp2, doy2) = lemma_civil_parts(y2, m2, d2);
    let doe1 = 365 * yoe1 + yoe1 / 4 - yoe1 / 100 + doy1;
    let doe2 = 365 * yoe2 + yoe2 / 4 - yoe2 / 100 + doy2;
    lemma_year_from_start(yoe1 as u32, doy1 as u32, doe1 as u32);
    lemma_year_from_start(yoe2 as u32, doy2 as u32, doe2 as u32);
    let z = days_from_civil(y1, m1, d1) + 719468;
    lemma_floor_div(z, era1, doe1, 146097);
    lemma_floor_div(z, era2, doe2, 146097);
    assert(yoe1 == yoe2);
    assert(doy1 == doy2);
    assert(mp1 == mp2);
}

/// `YYYY-MM-DDTHH:MM:SSZ` for the given date and time of day.
pub open spec fn iso_text(y: int, m: int, d: int, hh: int, mm: int, ss: int) -> Seq<char> {
    zero_padded(y as nat, 4) + "-"@ + zero_padded(m as nat, 2) + "-"@ + zero_padded(d as nat, 2) + "T"@
        + zero_padded(hh as nat, 2) + ":"@ + zero_padded(mm as nat, 2) + ":"@ + zero_padded(ss as nat, 2)
        + "Z"@
}

/// Whether `out` is the UTC timestamp of `secs` seconds after the epoch:
/// the calendar date of day `secs / 86400` and the time of day of the rest.
pub open spec fn is_iso_stamp(secs: u64, out: Seq<char>) -> bool {
    let days = secs / 86400;
    let rem = secs % 86400;
    exists|y: int, m: int, d: int|
        #![trigger days_from_civil(y, m, d)]
        {
            &&& y >= 0
            &&& 1 <= m <= 12
            &&& 1 <= d <= days_in_month(y, m)
            &&& days_from_civil(y, m, d) == days
            &&& out == iso_text(y, m, d, (rem / 3600) as int, ((rem % 3600) / 60) as int, (rem % 60) as int)
        }
}

/// The UTC timestamp of `secs` seconds after the epoch, in the form
/// `YYYY-MM-DDTHH:MM:SSZ`.
pub fn iso_from_secs(secs: u64) -> (out: String)
    ensures
        is_iso_stamp(secs, out@),
{
    let days: u64 = secs / 86400;
    let rem: u64 = secs % 86400;
    let (year, month, day) = civil_from_days(days as i64);
    let hh = rem / 3600;
    let mm = (rem % 3600) / 60;
    let ss = rem % 60;
    let mut out = String::new();
    push_zero_padded(&mut out, year as u64, 4);
    push_str(&mut out, "-");
    push_zero_padded(&mut out, month as u64, 2);
    push_str(&mut out, "-");
    push_zero_padded(&mut out, day as u64, 2);
    push_str(&mut out, "T");
    push_zero_padded(&mut out, hh, 2);
    push_str(&mut out, ":");
    push_zero_padded(&mut out, mm, 2);
    push_str(&mut out, ":");
    push_zero_padded(&mut out, ss, 2);
    push_str(&mut out, "Z");
    assert(out@ =~= iso_text(year as int, month as int, day as int, hh as int, mm as int, ss as int));
    assert(days_from_civil(year as int, month as int, day as int) == days);
    out
}

/// Every date of the year 10000 or later is at least day 2932897
/// (10000-01-01).
proof fn lemma_late_years_have_late_days(y: int, m: int, d: int)
    requires
        y >= 10000,
        1 <= m <= 12,
        1 <= d,
    ensures
        days_from_civil(y, m, d) >= 2932897,
{
    let yy = if m <= 2 { y - 1 } else { y };
    let era = yy / 400;
    let yoe = yy - era * 400;
    vstd::arithmetic::div_mod::lemma_fundamental_div_mod(yy, 400);
    assert(0 <= yoe < 400);
    assert(era >= 24) by (nonlinear_arith)
        requires yy == era * 400 + yoe, yoe < 400, yy >= 9999;
    assert(yoe / 4 >= yoe / 100) by (nonlinear_arith)
        requires 0 <= yoe;
    let mp = if m > 2 { m - 3 } else { m + 9 };
    assert((153 * mp + 2) / 5 >= 0);
    if era == 24 {
        assert(yy == 9999);
        assert(m <= 2);
        assert(yoe == 399);
        assert((153 * mp + 2) / 5 >= 306);
    } else {
        assert(era * 146097 >= 25 * 146097) by (nonlinear_arith)
            requires era >= 25;
    }
}

/// `n` padded to `width` digits has exactly `width` characters when it has
/// no more digits than that.
proof fn lemma_zero_padded_len(n: nat, width: nat)
    requires
        width >= 1,
        n < crate::text::pow10(width),
    ensures
        zero_padded(n, width).len() == width,
{
    crate::text::lemma_decimal_len_pow(n, width);
}

/// Before the year 10000 a timestamp has the fixed form
/// `YYYY-MM-DDTHH:MM:SSZ`: twenty characters, the date parts split by `-`,
/// `T` between date and time, the time parts split by `:`, and `Z` last.
pub proof fn lemma_early_stamps_have_the_fixed_form(secs: u64, out: Seq<char>)
    requires
        is_iso_stamp(secs, out),
        secs < 253402300800,
    ensures
        out.len() == 20,
        out[4] == '-',
        out[7] == '-',
        out[10] == 'T',
        out[13] == ':',
        out[16] == ':',
        out[19] == 'Z',
{
    let days = secs / 86400;
    let rem = secs % 86400;
    let (y, m, d) = choose|y: int, m: int, d: int|
        #![trigger days_from_civil(y, m, d)]
        {
            &&& y >= 0
            &&& 1 <= m <= 12
            &&& 1 <= d <= days_in_month(y, m)
            &&& days_from_civil(y, m, d) == days
            &&& out == iso_text(y, m, d, (rem / 3600) as int, ((rem % 3600) / 60) as int, (rem % 60) as int)
        };
    assert(days < 2932897);
    if y >= 10000 {
        lemma_late_years_have_late_days(y, m, d);
    }
    assert(crate::text::pow10(4) == 10000) by {
        reveal_with_fuel(crate::text::pow10, 5);
    }
    assert(crate::text::pow10(2) == 100) by {
        reveal_with_fuel(crate::text::pow10, 3);
    }
    assert(days_in_month(y, m) <= 31);
    let hh = (rem / 3600) as int;
    let mi = ((rem % 3600) / 60) as int;
    let ss = (rem % 60) as int;
    assert(hh < 24);
    assert(mi < 60);
    lemma_zero_padded_len(y as nat, 4);
    lemma_zero_padded_len(m as nat, 2);
    lemma_zero_padded_len(d as nat, 2);
    lemma_zero_padded_len(hh as nat, 2);
    lemma_zero_padded_len(mi as nat, 2);
    lemma_zero_padded_len(ss as nat, 2);
    reveal_strlit("-");
    reveal_strlit("T");
    reveal_strlit(":");
    reveal_strlit("Z");
    let t = out;
    assert(t[4] == '-');
    assert(t[7] == '-');
    assert(t[10] == 'T');
    assert(t[13] == ':');
    assert(t[16] == ':');
    assert(t[19] == 'Z');
}

/// The seconds since the Unix epoch on the system clock (zero when the
/// clock reads earlier than the epoch).
#[verifier::external_body]
fn unix_time_secs() -> (secs: u64) {
    std::time::SystemTime::now().duration_since(std::time::UNIX_EPOCH).unwrap_or_default().as_secs()
}

/// The current UTC time as `YYYY-MM-DDTHH:MM:SSZ`.
pub fn iso_now() -> (out: String)
    ensures
        exists|secs: u64| is_iso_stamp(secs, out@),
{
    let secs = unix_time_secs();
    iso_from_secs(secs)
}

/// `n` in lower-case hex without leading zeros.
pub open spec fn lower_hex(n: nat) -> Seq<char>
    decreases n,
{
    if n < 16 {
        seq![hex_digit(n as int)]
    } else {
        lower_hex(n / 16).push(hex_digit((n % 16) as int))
    }
}

fn push_lower_hex(s: &mut String, n: u64)
    ensures
        final(s)@ == old(s)@ + lower_hex(n as nat),
    decreases n,
{
    if n >= 16 {
        push_lower_hex(s, n / 16);
    }
    let digit = (n % 16) as u8;
    let c = if digit < 10 {
        (('0' as u8) + digit) as char
    } else {
        (('a' as u8) + digit - 10) as char
    };
    push_char(s, c);
    assert(s@ =~= old(s)@ + lower_hex(n as nat));
}

/// A download id made of the start time in milliseconds, in hex, and the
/// process id: `<millis:x>-<pid>`.
pub fn id_from(millis: u64, pid: u32) -> (id: String)
    ensures
        id@ == lower_hex(millis as nat) + "-"@ + decimal(pid as nat),
{
    let mut id = String::new();
    push_lower_hex(&mut id, millis);
    push_str(&mut id, "-");
    push_decimal(&mut id, pid as u64);
    assert(id@ =~= lower_hex(millis as nat) + "-"@ + decimal(pid as nat));
    id
}
} // verus!
