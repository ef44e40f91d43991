//! Timestamped backup file names, and the selection of the newest save file
//! from a directory listing.
//!
//! A backup artifact is saved under `{save_name}_%Y-%m-%d_%H-%M.{extension}`,
//! stamped with the current local time. Reading the clock goes through a
//! trusted wrapper that hands back plain calendar fields; rendering the stamp
//! and picking the newest file are verified.

use vstd::prelude::*;
use vstd::string::StringExecFns;

use crate::decimal::decimal_seq;
use crate::decimal::padded_decimal;
use crate::decimal::zero_pad;

verus! {

/// A local calendar time, down to the minute.
#[derive(Clone, Copy)]
pub struct Timestamp {
    /// The calendar year.
    pub year: i32,
    /// The month, from 1 to 12.
    pub month: u32,
    /// The day of the month, from 1 to 31.
    pub day: u32,
    /// The hour, from 0 to 23.
    pub hour: u32,
    /// The minute, from 0 to 59.
    pub minute: u32,
}

/// The field ranges the clock guarantees.
pub open spec fn valid_timestamp(t: Timestamp) -> bool {
    &&& -262143 <= t.year <= 262142
    &&& 1 <= t.month <= 12
    &&& 1 <= t.day <= 31
    &&& t.hour <= 23
    &&& t.minute <= 59
}

/// Relies on chrono's `Local::now` and the `Datelike` / `Timelike`
/// accessors: the month is 1 to 12, the day 1 to 31, the hour 0 to 23, the
/// minute 0 to 59, and the year lies within chrono's supported range.
#[verifier::external_body]
pub fn current_local_time() -> (t: Timestamp)
    ensures
        valid_timestamp(t),
{
    let now = chrono::offset::Local::now();
    Timestamp {
        year: chrono::Datelike::year(&now),
        month: chrono::Datelike::month(&now),
        day: chrono::Datelike::day(&now),
        hour: chrono::Timelike::hour(&now),
        minute: chrono::Timelike::minute(&now),
    }
}

/// The rendering of a year: at least four digits, zero padded, with a
/// leading minus sign for years before zero.
pub open spec fn year_seq(y: int) -> Seq<char> {
    if y >= 0 {
        zero_pad(decimal_seq(y as nat), 4)
    } else {
        "-"@ + zero_pad(decimal_seq((-y) as nat), 4)
    }
}

/// The timestamp rendering `YYYY-MM-DD_HH-MM` used in backup file names.
pub open spec fn stamp_seq(t: Timestamp) -> Seq<char> {
    year_seq(t.year as int) + "-"@ + zero_pad(decimal_seq(t.month as nat), 2) + "-"@ + zero_pad(
        decimal_seq(t.day as nat),
        2,
    ) + "_"@ + zero_pad(decimal_seq(t.hour as nat), 2) + "-"@ + zero_pad(
        decimal_seq(t.minute as nat),
        2,
    )
}

/// Render a timestamp as `YYYY-MM-DD_HH-MM`.
pub fn format_stamp(t: &Timestamp) -> (s: String)
    ensures
        s@ == stamp_seq(*t),
{
    let mut s = String::new();
    if t.year < 0 {
        s.append("-");
        let mag: i64 = -(t.year as i64);
        let y = padded_decimal(mag as u64, 4);
        s.append(y.as_str());
    } else {
        let y = padded_decimal(t.year as u64, 4);
        s.append(y.as_str());
    }
    s.append("-");
    let mo = padded_decimal(t.month as u64, 2);
    s.append(mo.as_str());
    s.append("-");
    let d = padded_decimal(t.day as u64, 2);
    s.append(d.as_str());
    s.append("_");
    let h = padded_decimal(t.hour as u64, 2);
    s.append(h.as_str());
    s.append("-");
    let mi = padded_decimal(t.minute as u64, 2);
    s.append(mi.as_str());
    proof {
        assert(s@ =~= stamp_seq(*t));
    }
    s
}

/// The stamped backup file name `{save_name}_{stamp}.{extension}`.
pub open spec fn backup_name_seq(save_name: Seq<char>, t: Timestamp, extension: Seq<char>) -> Seq<
    char,
> {
    save_name + "_"@ + stamp_seq(t) + "."@ + extension
}

/// Build the stamped backup file name `{save_name}_{stamp}.{extension}`.
pub fn backup_file_name(save_name: &str, t: &Timestamp, extension: &str) -> (s: String)
    ensures
        s@ == backup_name_seq(save_name@, *t, extension@),
{
    let mut s = String::new();
    s.append(save_name);
    s.append("_");
    let stamp = format_stamp(t);
    s.append(stamp.as_str());
    s.append(".");
    s.append(extension);
    proof {
        assert(s@ =~= backup_name_seq(save_name@, *t, extension@));
    }
    s
}

/// From a directory listing of `(name, modification time)` entries, pick the
/// most recently modified one: the first entry carrying the maximal
/// modification time, or nothing for an empty listing.
pub fn get_newest_file(entries: &Vec<(String, u64)>) -> (r: Option<String>)
    ensures
        (r is None) <==> entries@.len() == 0,
        r matches Some(name) ==> exists|i: int|
            {
                &&& 0 <= i < entries@.len()
                &&& (#[trigger] entries@[i]).0@ == name@
                &&& forall|j: int| 0 <= j < entries@.len() ==> entries@[j].1 <= entries@[i].1
                &&& forall|j: int| 0 <= j < i ==> entries@[j].1 < entries@[i].1
            },
{
    if entries.len() == 0 {
        return None;
    }
    let mut best: usize = 0;
    let mut k: usize = 1;
    while k < entries.len()
        invariant
            entries@.len() > 0,
            best < k <= entries@.len(),
            forall|j: int| 0 <= j < k ==> entries@[j].1 <= entries@[best as int].1,
            forall|j: int| 0 <= j < best ==> entries@[j].1 < entries@[best as int].1,
        decreases entries@.len() - k,
    {
        if entries[k].1 > entries[best].1 {
            best = k;
        }
        k = k + 1;
    }
    Some(entries[best].0.clone())
}

} // verus!
