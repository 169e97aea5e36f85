//! Users, skillblocks and their daily records, as plain values.

use crate::day::Day;
use crate::series::{DayTotal, Series};
use vstd::prelude::*;

verus! {

/// The time series of one skillblock, as the presentation layer gets it.
#[derive(Debug)]
pub struct TimeData {
    pub category: String,
    pub skill_name: String,
    pub skill_description: String,
    pub time_data: Series,
}

/// The time series of all skillblocks of one user.
#[derive(Debug)]
pub struct TimeWrapper {
    pub data: Vec<TimeData>,
}

/// What the form for a new skillblock submits.
#[derive(Clone, Debug)]
pub struct FormData {
    pub api_key: Option<String>,
    pub category: String,
    pub offline_category: bool,
    pub description: String,
    pub skill_name: String,
}

/// A stored daily record.
#[derive(Clone, Copy, Debug, PartialEq, Eq, Structural)]
pub struct DateTime {
    pub id: i32,
    pub block_id: Option<i32>,
    pub day_time: i32,
    pub day_date: Day,
}

/// A stored skillblock.
#[derive(Clone, Debug)]
pub struct Skillblock {
    pub block_id: i32,
    pub user_id: Option<i32>,
    pub category: String,
    pub offline_category: bool,
    pub skill_name: String,
    pub description: String,
}

/// A stored user.
#[derive(Clone, Debug)]
pub struct User {
    pub user_id: i32,
    pub auth_id: String,
    pub api_key: Option<String>,
    pub key_present: bool,
    pub block_count: i32,
    /// Seconds since the epoch.
    pub created_at: i64,
    /// Seconds since the epoch.
    pub last_login: i64,
    /// The day of the last completed synchronisation.
    pub blocks_last_fetched: Day,
}

/// A daily record to insert.
#[derive(Clone, Copy, Debug, PartialEq, Eq, Structural)]
pub struct NewDateTime {
    pub block_id: Option<i32>,
    pub day_time: i32,
    pub day_date: Day,
}

/// A skillblock to insert.
#[derive(Clone, Debug)]
pub struct NewSkillblock {
    pub user_id: Option<i32>,
    pub category: String,
    pub offline_category: bool,
    pub skill_name: String,
    pub skill_description: String,
}

/// A user to insert.
#[derive(Clone, Debug)]
pub struct NewUser {
    pub auth_id: String,
    pub api_key: Option<String>,
    pub key_present: bool,
    pub block_count: i32,
    pub created_at: i64,
    pub last_login: i64,
    pub blocks_last_fetched: Day,
}

impl DateTime {
    /// The day and seconds of the record.
    pub fn total(&self) -> (t: DayTotal)
        ensures
            t.day == self.day_date,
            t.seconds == self.day_time,
    {
        DayTotal { day: self.day_date, seconds: self.day_time }
    }
}

impl NewDateTime {
    /// The record that stores `total` for the skillblock `block_id`.
    pub fn of(block_id: i32, total: DayTotal) -> (r: NewDateTime)
        ensures
            r.block_id == Some(block_id),
            r.day_date == total.day,
            r.day_time == total.seconds,
    {
        NewDateTime { block_id: Some(block_id), day_time: total.seconds, day_date: total.day }
    }
}

/// The records that store `totals` for the skillblock `block_id`, in order.
pub open spec fn new_records(block_id: i32, totals: Seq<DayTotal>) -> Seq<NewDateTime> {
    Seq::new(
        totals.len(),
        |i: int|
            NewDateTime {
                block_id: Some(block_id),
                day_time: totals[i].seconds,
                day_date: totals[i].day,
            },
    )
}

/// The records that store `totals` for the skillblock `block_id`, in order.
pub fn new_date_times(block_id: i32, totals: &Vec<DayTotal>) -> (r: Vec<NewDateTime>)
    ensures
        r@ == new_records(block_id, totals@),
{
    let mut out: Vec<NewDateTime> = Vec::new();
    let mut i: usize = 0;
    while i < totals.len()
        invariant
            i <= totals.len(),
            out@ == new_records(block_id, totals@.take(i as int)),
        decreases totals.len() - i,
    {
        out.push(NewDateTime::of(block_id, totals[i]));
        proof {
            assert(out@ =~= new_records(block_id, totals@.take(i + 1)));
        }
        i += 1;
    }
    proof {
        assert(totals@.take(totals@.len() as int) =~= totals@);
    }
    out
}

} // verus!
