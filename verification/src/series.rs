//! Per-day totals: the rows an analytics source returns, the totals they
//! add up to, and a series that holds at most one total per day.

use crate::day::{Day, Window};
use vstd::prelude::*;

verus! {

/// One row of the analytics source: some seconds spent on one day.
#[derive(Clone, Copy, Debug, PartialEq, Eq, Structural)]
pub struct Row {
    pub perspective: Day,
    pub time_spent: i32,
}

/// The seconds recorded for one day.
#[derive(Clone, Copy, Debug, PartialEq, Eq, Structural)]
pub struct DayTotal {
    pub day: Day,
    pub seconds: i32,
}

/// The sum of `time_spent` over the rows of `day`.
pub open spec fn day_sum(rows: Seq<Row>, day: int) -> int
    decreases rows.len(),
{
    if rows.len() == 0 {
        0
    } else {
        day_sum(rows.drop_last(), day) + if rows.last().perspective@ == day {
            rows.last().time_spent as int
        } else {
            0
        }
    }
}

/// Whether some row is of `day`.
pub open spec fn has_row(rows: Seq<Row>, day: int) -> bool {
    exists|i: int| 0 <= i < rows.len() && (#[trigger] rows[i]).perspective@ == day
}

/// The totals of a fetch: each day of the window that has a row, with the
/// sum of its rows. A day without rows is absent.
pub open spec fn totals(rows: Seq<Row>, window: Window) -> Map<int, int> {
    Map::new(
        |d: int| window.spec_contains(d) && has_row(rows, d),
        |d: int| day_sum(rows, d),
    )
}

/// Whether every total of the fetch can be held in an `i32`.
pub open spec fn totals_fit(rows: Seq<Row>, window: Window) -> bool {
    forall|d: int| #[trigger]
        totals(rows, window).contains_key(d) ==> i32::MIN <= day_sum(rows, d) <= i32::MAX
}

/// Whether no two records are of the same day.
pub open spec fn distinct_days(records: Seq<DayTotal>) -> bool {
    forall|i: int, j: int|
        0 <= i < j < records.len() ==> (#[trigger] records[i]).day@ != (#[trigger] records[j]).day@
}

/// Whether some record is of `day`.
pub open spec fn has_day(records: Seq<DayTotal>, day: int) -> bool {
    exists|i: int| 0 <= i < records.len() && (#[trigger] records[i]).day@ == day
}

/// The map from day to seconds that a list of records stands for. Where a
/// day occurs twice, the later record counts.
pub open spec fn records_map(records: Seq<DayTotal>) -> Map<int, int>
    decreases records.len(),
{
    if records.len() == 0 {
        Map::empty()
    } else {
        records_map(records.drop_last()).insert(
            records.last().day@,
            records.last().seconds as int,
        )
    }
}

/// The days of a record list are the keys of its map.
pub proof fn lemma_records_map_keys(records: Seq<DayTotal>, day: int)
    ensures
        records_map(records).contains_key(day) <==> has_day(records, day),
    decreases records.len(),
{
    if records.len() > 0 {
        let front = records.drop_last();
        lemma_records_map_keys(front, day);
        if has_day(records, day) {
            let i = choose|i: int| 0 <= i < records.len() && (#[trigger] records[i]).day@ == day;
            if i < records.len() - 1 {
                assert(front[i].day@ == day);
            }
        }
        if has_day(front, day) {
            let i = choose|i: int| 0 <= i < front.len() && (#[trigger] front[i]).day@ == day;
            assert(records[i].day@ == day);
        }
        if records.last().day@ == day {
            assert(records[records.len() - 1].day@ == day);
        }
    }
}

/// In a list without repeated days, each record is what the map holds for
/// its day.
pub proof fn lemma_records_map_at(records: Seq<DayTotal>, i: int)
    requires
        distinct_days(records),
        0 <= i < records.len(),
    ensures
        records_map(records).contains_key(records[i].day@),
        records_map(records)[records[i].day@] == records[i].seconds,
    decreases records.len(),
{
    let front = records.drop_last();
    if i < records.len() - 1 {
        assert(distinct_days(front)) by {
            assert forall|a: int, b: int| 0 <= a < b < front.len() implies (#[trigger] front[a]).day@
                != (#[trigger] front[b]).day@ by {
                assert(front[a] == records[a]);
                assert(front[b] == records[b]);
            }
        }
        lemma_records_map_at(front, i);
        assert(front[i] == records[i]);
        assert(records[i].day@ != records[records.len() - 1].day@);
    }
}

/// Replacing the seconds of one record of a list without repeated days
/// changes the map at that day alone.
pub proof fn lemma_records_map_update(records: Seq<DayTotal>, i: int, seconds: i32)
    requires
        distinct_days(records),
        0 <= i < records.len(),
    ensures
        distinct_days(records.update(i, DayTotal { day: records[i].day, seconds })),
        records_map(records.update(i, DayTotal { day: records[i].day, seconds })) == records_map(
            records,
        ).insert(records[i].day@, seconds as int),
    decreases records.len(),
{
    let changed = records.update(i, DayTotal { day: records[i].day, seconds });
    assert(distinct_days(changed)) by {
        assert forall|a: int, b: int| 0 <= a < b < changed.len() implies (#[trigger] changed[a]).day@
            != (#[trigger] changed[b]).day@ by {
            assert(changed[a].day == records[a].day);
            assert(changed[b].day == records[b].day);
        }
    }
    let front = records.drop_last();
    if i == records.len() - 1 {
        assert(changed.drop_last() =~= front);
        assert(records_map(changed) =~= records_map(records).insert(records[i].day@, seconds as int));
    } else {
        assert(distinct_days(front)) by {
            assert forall|a: int, b: int| 0 <= a < b < front.len() implies (#[trigger] front[a]).day@
                != (#[trigger] front[b]).day@ by {
                assert(front[a] == records[a]);
                assert(front[b] == records[b]);
            }
        }
        lemma_records_map_update(front, i, seconds);
        assert(front[i] == records[i]);
        assert(changed.drop_last() =~= front.update(i, DayTotal { day: records[i].day, seconds }));
        assert(changed.last() == records.last());
        assert(records[i].day@ != records[records.len() - 1].day@);
        assert(records_map(changed) =~= records_map(records).insert(records[i].day@, seconds as int));
    }
}

/// A series of daily totals with at most one total per day.
///
/// The records keep the order in which their days were first recorded, so
/// that what is derived from a series, such as the writes of a fetch, comes
/// in an order that the inputs fix.
#[derive(Debug)]
pub struct Series {
    entries: Vec<DayTotal>,
}

impl View for Series {
    type V = Map<int, int>;

    closed spec fn view(&self) -> Map<int, int> {
        records_map(self.entries@)
    }
}

impl Clone for Series {
    fn clone(&self) -> (r: Series)
        ensures
            r@ == self@,
            r.spec_records() == self.spec_records(),
    {
        Series { entries: self.records() }
    }
}

impl Series {
    #[verifier::type_invariant]
    spec fn no_day_twice(&self) -> bool {
        distinct_days(self.entries@)
    }

    /// The records of the series, in the order in which their days came.
    pub closed spec fn spec_records(&self) -> Seq<DayTotal> {
        self.entries@
    }

    /// The empty series.
    pub fn new() -> (s: Series)
        ensures
            s@ == (Map::<int, int>::empty()),
            s.spec_records().len() == 0,
    {
        Series { entries: Vec::new() }
    }

    /// The number of days in the series.
    pub fn len(&self) -> (n: usize)
        ensures
            n == self.spec_records().len(),
    {
        self.entries.len()
    }

    /// Whether the series holds no day.
    pub fn is_empty(&self) -> (b: bool)
        ensures
            b == (self.spec_records().len() == 0),
            b == (self@ == (Map::<int, int>::empty())),
    {
        proof {
            if self.entries@.len() > 0 {
                assert(records_map(self.entries@).contains_key(self.entries@.last().day@));
            }
        }
        self.entries.len() == 0
    }

    /// The seconds recorded for `day`, if any.
    pub fn get(&self, day: &Day) -> (r: Option<i32>)
        ensures
            match r {
                Some(seconds) => self@.contains_key(day@) && self@[day@] == seconds,
                None => !self@.contains_key(day@),
            },
    {
        proof {
            use_type_invariant(self);
        }
        let mut i: usize = 0;
        while i < self.entries.len()
            invariant
                i <= self.entries.len(),
                distinct_days(self.entries@),
                forall|k: int| 0 <= k < i ==> (#[trigger] self.entries@[k]).day@ != day@,
            decreases self.entries.len() - i,
        {
            if self.entries[i].day.number == day.number {
                proof {
                    lemma_records_map_at(self.entries@, i as int);
                }
                return Some(self.entries[i].seconds);
            }
            i += 1;
        }
        proof {
            lemma_records_map_keys(self.entries@, day@);
        }
        None
    }

    /// Whether the series holds `day`.
    pub fn contains(&self, day: &Day) -> (b: bool)
        ensures
            b == self@.contains_key(day@),
    {
        self.get(day).is_some()
    }

    /// Records `seconds` for `day`, in place of what was recorded for it.
    pub fn set(&mut self, day: Day, seconds: i32)
        ensures
            final(self)@ == old(self)@.insert(day@, seconds as int),
    {
        proof {
            use_type_invariant(&*self);
        }
        let mut entries = self.records();
        let mut i: usize = 0;
        while i < entries.len()
            invariant
                i <= entries.len(),
                entries@ == old(self).entries@,
                distinct_days(entries@),
                forall|k: int| 0 <= k < i ==> (#[trigger] entries@[k]).day@ != day@,
            decreases entries.len() - i,
        {
            if entries[i].day.number == day.number {
                proof {
                    lemma_records_map_update(entries@, i as int, seconds);
                    assert(entries@[i as int].day == day);
                }
                entries.set(i, DayTotal { day, seconds });
                *self = Series { entries };
                return ;
            }
            i += 1;
        }
        proof {
            let grown = entries@.push(DayTotal { day, seconds });
            assert(grown.drop_last() =~= entries@);
            assert(distinct_days(grown));
        }
        entries.push(DayTotal { day, seconds });
        *self = Series { entries };
    }

    /// The records of the series: one per day.
    pub fn records(&self) -> (r: Vec<DayTotal>)
        ensures
            r@ == self.spec_records(),
            distinct_days(r@),
            records_map(r@) == self@,
    {
        proof {
            use_type_invariant(self);
        }
        self.entries.clone()
    }
}

/// Taking one more row adds that row's seconds to the sum of its day.
pub proof fn lemma_day_sum_step(rows: Seq<Row>, n: int, day: int)
    requires
        0 <= n < rows.len(),
    ensures
        day_sum(rows.take(n + 1), day) == day_sum(rows.take(n), day) + if rows[n].perspective@ == day {
            rows[n].time_spent as int
        } else {
            0
        },
{
    assert(rows.take(n + 1).drop_last() =~= rows.take(n));
    assert(rows.take(n + 1).last() == rows[n]);
}

/// Taking one more row adds that row's day to the days that have a row.
pub proof fn lemma_has_row_step(rows: Seq<Row>, n: int, day: int)
    requires
        0 <= n < rows.len(),
    ensures
        has_row(rows.take(n + 1), day) <==> has_row(rows.take(n), day) || rows[n].perspective@ == day,
{
    let shorter = rows.take(n);
    let longer = rows.take(n + 1);
    if has_row(longer, day) {
        let i = choose|i: int| 0 <= i < longer.len() && (#[trigger] longer[i]).perspective@ == day;
        if i < n {
            assert(shorter[i].perspective@ == day);
        }
    }
    if has_row(shorter, day) {
        let i = choose|i: int| 0 <= i < shorter.len() && (#[trigger] shorter[i]).perspective@ == day;
        assert(longer[i].perspective@ == day);
    }
    if rows[n].perspective@ == day {
        assert(longer[n].perspective@ == day);
    }
}

/// The sum of `time_spent` over the rows of `day`, unless it leaves the
/// range of `i32`.
pub fn day_total(rows: &Vec<Row>, day: &Day) -> (r: Option<i32>)
    ensures
        match r {
            Some(total) => total == day_sum(rows@, day@),
            None => day_sum(rows@, day@) < i32::MIN || day_sum(rows@, day@) > i32::MAX,
        },
{
    let mut acc: i128 = 0;
    let mut j: usize = 0;
    while j < rows.len()
        invariant
            j <= rows.len(),
            acc == day_sum(rows@.take(j as int), day@),
            -0x8000_0000 * j <= acc <= 0x8000_0000 * j,
        decreases rows.len() - j,
    {
        let row = rows[j];
        proof {
            lemma_day_sum_step(rows@, j as int, day@);
        }
        if row.perspective.number == day.number {
            acc = acc + row.time_spent as i128;
        }
        j += 1;
    }
    proof {
        assert(rows@.take(rows@.len() as int) =~= rows@);
    }
    if acc < i32::MIN as i128 || acc > i32::MAX as i128 {
        None
    } else {
        Some(acc as i32)
    }
}

/// The totals of a fetch (see `totals`): same-day rows are summed, rows
/// outside the window are left out. `None` where a total leaves the range
/// of `i32`.
pub fn aggregate(rows: &Vec<Row>, window: &Window) -> (r: Option<Series>)
    ensures
        match r {
            Some(series) => totals_fit(rows@, *window) && series@ == totals(rows@, *window),
            None => !totals_fit(rows@, *window),
        },
{
    let mut out = Series::new();
    let mut i: usize = 0;
    while i < rows.len()
        invariant
            i <= rows.len(),
            forall|d: int|
                #![trigger out@.contains_key(d)]
                #![trigger has_row(rows@.take(i as int), d)]
                out@.contains_key(d) <==> window.spec_contains(d) && has_row(
                    rows@.take(i as int),
                    d,
                ),
            forall|d: int| #[trigger]
                out@.contains_key(d) ==> out@[d] == day_sum(rows@, d) && i32::MIN <= day_sum(
                    rows@,
                    d,
                ) <= i32::MAX,
        decreases rows.len() - i,
    {
        let row = rows[i];
        let ghost before = out@;
        if window.contains(&row.perspective) && !out.contains(&row.perspective) {
            match day_total(rows, &row.perspective) {
                Some(total) => {
                    out.set(row.perspective, total);
                },
                None => {
                    proof {
                        assert(rows@[i as int].perspective@ == row.perspective@);
                        assert(has_row(rows@, row.perspective@));
                        assert(totals(rows@, *window).contains_key(row.perspective@));
                    }
                    return None;
                },
            }
        }
        proof {
            assert forall|d: int|
                #![trigger out@.contains_key(d)]
                #![trigger has_row(rows@.take(i + 1), d)]
                out@.contains_key(d) <==> window.spec_contains(d) && has_row(
                    rows@.take(i + 1),
                    d,
                ) by {
                lemma_has_row_step(rows@, i as int, d);
                assert(before.contains_key(d) <==> window.spec_contains(d) && has_row(
                    rows@.take(i as int),
                    d,
                ));
            }
            assert forall|d: int| #[trigger] out@.contains_key(d) implies out@[d] == day_sum(
                rows@,
                d,
            ) && i32::MIN <= day_sum(rows@, d) <= i32::MAX by {
                if d != row.perspective@ {
                    assert(before.contains_key(d));
                }
            }
        }
        i += 1;
    }
    proof {
        assert(rows@.take(rows@.len() as int) =~= rows@);
        assert forall|d: int| out@.contains_key(d) <==> totals(rows@, *window).contains_key(
            d,
        ) by {
            assert(out@.contains_key(d) <==> window.spec_contains(d) && has_row(
                rows@.take(i as int),
                d,
            ));
        }
        assert(out@ =~= totals(rows@, *window));
    }
    Some(out)
}

impl Series {
    /// The series that a list of records stands for. Where a day occurs
    /// twice, the later record counts.
    pub fn from_records(records: &Vec<DayTotal>) -> (s: Series)
        ensures
            s@ == records_map(records@),
    {
        let mut out = Series::new();
        let mut i: usize = 0;
        while i < records.len()
            invariant
                i <= records.len(),
                out@ == records_map(records@.take(i as int)),
            decreases records.len() - i,
        {
            proof {
                assert(records@.take(i + 1).drop_last() =~= records@.take(i as int));
                assert(records@.take(i + 1).last() == records@[i as int]);
            }
            out.set(records[i].day, records[i].seconds);
            i += 1;
        }
        proof {
            assert(records@.take(records@.len() as int) =~= records@);
        }
        out
    }

    /// Lays `fresh` over the series: a day of `fresh` takes its seconds
    /// from `fresh`, every other day keeps what it had.
    pub fn overlay(&mut self, fresh: &Series)
        ensures
            final(self)@ == old(self)@.union_prefer_right(fresh@),
    {
        let items = fresh.records();
        let mut i: usize = 0;
        while i < items.len()
            invariant
                i <= items.len(),
                records_map(items@) == fresh@,
                self@ == old(self)@.union_prefer_right(records_map(items@.take(i as int))),
            decreases items.len() - i,
        {
            proof {
                assert(items@.take(i + 1).drop_last() =~= items@.take(i as int));
                assert(items@.take(i + 1).last() == items@[i as int]);
            }
            self.set(items[i].day, items[i].seconds);
            proof {
                assert(self@ =~= old(self)@.union_prefer_right(records_map(items@.take(i + 1))));
            }
            i += 1;
        }
        proof {
            assert(items@.take(items@.len() as int) =~= items@);
        }
    }
}

} // verus!
