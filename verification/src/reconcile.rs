//! Reconciling the stored series of a skillblock with freshly fetched totals:
//! which days are fetched, what the series becomes, and which records are
//! written so that no day is ever stored twice.

use crate::day::{Day, Window, LOOKBACK_DAYS};
use crate::series::{day_sum, distinct_days, has_day, has_row, lemma_records_map_keys,
    lemma_records_map_update, records_map, totals, DayTotal, Row, Series};
use vstd::prelude::*;

verus! {

/// Whether a fresh total for `day` is written by updating in place: the day
/// is already in the series, or it is the last synchronised day of a
/// skillblock that had records.
pub open spec fn needs_upsert(
    before: Map<int, int>,
    had_records: bool,
    last_synced: int,
    day: int,
) -> bool {
    before.contains_key(day) || (had_records && day == last_synced)
}

/// The days written by updating in place.
pub open spec fn upsert_days(before: Map<int, int>, had_records: bool, last_synced: int) -> Set<
    int,
> {
    Set::new(|d: int| needs_upsert(before, had_records, last_synced, d))
}

/// The windows fetched for one skillblock, in order. Without records: the
/// year that ends today. With records: the last synchronised day, then the
/// days since.
pub open spec fn sync_windows(had_records: bool, last_synced: Day, today: Day) -> Seq<Window> {
    if !had_records {
        seq![Window { begin: Day { number: (today.number - (LOOKBACK_DAYS - 1)) as i32 }, end: today }]
    } else if last_synced@ < today@ {
        seq![
            Window { begin: last_synced, end: last_synced },
            Window { begin: Day { number: (last_synced.number + 1) as i32 }, end: today },
        ]
    } else {
        seq![Window { begin: last_synced, end: last_synced }]
    }
}

/// The series after laying the totals of each fetch over it, one window
/// after the other. `fetched[i]` holds the rows returned for `windows[i]`.
pub open spec fn synced_series(
    existing: Map<int, int>,
    windows: Seq<Window>,
    fetched: Seq<Seq<Row>>,
) -> Map<int, int>
    decreases windows.len(),
{
    if windows.len() == 0 || fetched.len() != windows.len() {
        existing
    } else {
        synced_series(existing, windows.drop_last(), fetched.drop_last()).union_prefer_right(
            totals(fetched.last(), windows.last()),
        )
    }
}

/// The windows to fetch for one skillblock (see `sync_windows`). `None`
/// only where the first day of the year looked back on has no `i32` number.
pub fn plan_windows(had_records: bool, last_synced: Day, today: Day) -> (r: Option<Vec<Window>>)
    ensures
        match r {
            Some(windows) => windows@ == sync_windows(had_records, last_synced, today)
                && (had_records || today@ - (LOOKBACK_DAYS - 1) >= i32::MIN),
            None => !had_records && today@ - (LOOKBACK_DAYS - 1) < i32::MIN,
        },
{
    let mut windows: Vec<Window> = Vec::new();
    if !had_records {
        match Window::lookback(today) {
            Some(year) => {
                windows.push(year);
                proof {
                    assert(year.begin == Day { number: (today.number - (LOOKBACK_DAYS - 1)) as i32 });
                    assert(windows@ =~= sync_windows(had_records, last_synced, today));
                }
                Some(windows)
            },
            None => None,
        }
    } else {
        windows.push(Window::single(last_synced));
        match Window::since(last_synced, today) {
            Some(gap) => {
                windows.push(gap);
                proof {
                    assert(gap.begin == Day { number: (last_synced.number + 1) as i32 });
                }
            },
            None => {},
        }
        proof {
            assert(windows@ =~= sync_windows(had_records, last_synced, today));
        }
        Some(windows)
    }
}

/// The records written for one fetch.
#[derive(Debug)]
pub struct WritePlan {
    /// Updated in place; inserted where the update finds no record.
    pub upserts: Vec<DayTotal>,
    /// Inserted in one batch.
    pub inserts: Vec<DayTotal>,
}

/// Appending a record of a new day keeps the days distinct.
pub proof fn lemma_push_distinct(records: Seq<DayTotal>, record: DayTotal)
    requires
        distinct_days(records),
        !has_day(records, record.day@),
    ensures
        distinct_days(records.push(record)),
        records_map(records.push(record)) == records_map(records).insert(
            record.day@,
            record.seconds as int,
        ),
{
    let grown = records.push(record);
    assert(grown.drop_last() =~= records);
    assert forall|i: int, j: int| 0 <= i < j < grown.len() implies (#[trigger] grown[i]).day@ != (
    #[trigger] grown[j]).day@ by {
        if j == records.len() {
            assert(records[i].day@ != record.day@);
        } else {
            assert(grown[i] == records[i]);
            assert(grown[j] == records[j]);
        }
    }
}

/// Splits the fresh totals of one fetch into the records to update in place
/// and the records to insert. Each fresh day is written exactly once.
pub fn plan_writes(fresh: &Series, before: &Series, had_records: bool, last_synced: Day) -> (plan:
    WritePlan)
    ensures
        distinct_days(plan.upserts@),
        distinct_days(plan.inserts@),
        records_map(plan.upserts@) == fresh@.restrict(
            upsert_days(before@, had_records, last_synced@),
        ),
        records_map(plan.inserts@) == fresh@.remove_keys(
            upsert_days(before@, had_records, last_synced@),
        ),
{
    let items = fresh.records();
    let mut upserts: Vec<DayTotal> = Vec::new();
    let mut inserts: Vec<DayTotal> = Vec::new();
    let ghost days = upsert_days(before@, had_records, last_synced@);
    let mut i: usize = 0;
    while i < items.len()
        invariant
            i <= items.len(),
            distinct_days(items@),
            records_map(items@) == fresh@,
            days == upsert_days(before@, had_records, last_synced@),
            distinct_days(upserts@),
            distinct_days(inserts@),
            records_map(upserts@) == records_map(items@.take(i as int)).restrict(days),
            records_map(inserts@) == records_map(items@.take(i as int)).remove_keys(days),
        decreases items.len() - i,
    {
        let item = items[i];
        proof {
            let seen = items@.take(i as int);
            lemma_records_map_keys(seen, item.day@);
            if has_day(seen, item.day@) {
                let k = choose|k: int| 0 <= k < seen.len() && (#[trigger] seen[k]).day@ == item.day@;
                assert(items@[k].day@ == items@[i as int].day@);
            }
            lemma_records_map_keys(upserts@, item.day@);
            lemma_records_map_keys(inserts@, item.day@);
            assert(items@.take(i + 1).drop_last() =~= seen);
            assert(items@.take(i + 1).last() == item);
        }
        let in_place = before.contains(&item.day) || (had_records && item.day.number
            == last_synced.number);
        if in_place {
            proof {
                lemma_push_distinct(upserts@, item);
            }
            upserts.push(item);
        } else {
            proof {
                lemma_push_distinct(inserts@, item);
            }
            inserts.push(item);
        }
        proof {
            assert(records_map(upserts@) =~= records_map(items@.take(i + 1)).restrict(days));
            assert(records_map(inserts@) =~= records_map(items@.take(i + 1)).remove_keys(days));
        }
        i += 1;
    }
    proof {
        assert(items@.take(items@.len() as int) =~= items@);
    }
    WritePlan { upserts, inserts }
}

/// The stored rows after an update in place of `record`'s day that falls
/// back to an insert where the day has no row.
pub open spec fn upsert_row(store: Seq<DayTotal>, record: DayTotal) -> Seq<DayTotal> {
    if has_day(store, record.day@) {
        Seq::new(
            store.len(),
            |i: int|
                if store[i].day@ == record.day@ {
                    DayTotal { day: store[i].day, seconds: record.seconds }
                } else {
                    store[i]
                },
        )
    } else {
        store.push(record)
    }
}

/// The stored rows after upserting `records` one after the other.
pub open spec fn upsert_all(store: Seq<DayTotal>, records: Seq<DayTotal>) -> Seq<DayTotal>
    decreases records.len(),
{
    if records.len() == 0 {
        store
    } else {
        upsert_row(upsert_all(store, records.drop_last()), records.last())
    }
}

/// The stored rows of a skillblock after the writes of one plan: the
/// upserts, then the batch of inserts.
pub open spec fn store_after(store: Seq<DayTotal>, upserts: Seq<DayTotal>, inserts: Seq<DayTotal>) -> Seq<
    DayTotal,
> {
    upsert_all(store, upserts) + inserts
}

/// An upsert keeps one row per day and changes the stored series at its
/// day alone.
pub proof fn lemma_upsert_row(store: Seq<DayTotal>, record: DayTotal)
    requires
        distinct_days(store),
    ensures
        distinct_days(upsert_row(store, record)),
        records_map(upsert_row(store, record)) == records_map(store).insert(
            record.day@,
            record.seconds as int,
        ),
{
    if has_day(store, record.day@) {
        let i = choose|i: int| 0 <= i < store.len() && (#[trigger] store[i]).day@ == record.day@;
        lemma_records_map_update(store, i, record.seconds);
        let changed = store.update(i, DayTotal { day: store[i].day, seconds: record.seconds });
        assert forall|k: int| 0 <= k < store.len() implies upsert_row(store, record)[k]
            == changed[k] by {
            if k != i && store[k].day@ == record.day@ {
                if k < i {
                    assert(store[k].day@ != store[i].day@);
                } else {
                    assert(store[i].day@ != store[k].day@);
                }
            }
        }
        assert(upsert_row(store, record) =~= changed);
    } else {
        lemma_push_distinct(store, record);
    }
}

/// Upserts keep one row per day; the stored series becomes the old one with
/// the upserted records laid over it.
pub proof fn lemma_upsert_all(store: Seq<DayTotal>, records: Seq<DayTotal>)
    requires
        distinct_days(store),
    ensures
        distinct_days(upsert_all(store, records)),
        records_map(upsert_all(store, records)) == records_map(store).union_prefer_right(
            records_map(records),
        ),
    decreases records.len(),
{
    if records.len() == 0 {
        assert(records_map(store) =~= records_map(store).union_prefer_right(records_map(records)));
    } else {
        lemma_upsert_all(store, records.drop_last());
        lemma_upsert_row(upsert_all(store, records.drop_last()), records.last());
        assert(records_map(upsert_all(store, records)) =~= records_map(store).union_prefer_right(
            records_map(records),
        ));
    }
}

/// Appending records of new, distinct days keeps one row per day.
pub proof fn lemma_append_new_days(store: Seq<DayTotal>, records: Seq<DayTotal>)
    requires
        distinct_days(store),
        distinct_days(records),
        forall|d: int| has_day(records, d) ==> !has_day(store, d),
    ensures
        distinct_days(store + records),
        records_map(store + records) == records_map(store).union_prefer_right(records_map(records)),
    decreases records.len(),
{
    if records.len() == 0 {
        assert(store + records =~= store);
        assert(records_map(store) =~= records_map(store).union_prefer_right(records_map(records)));
    } else {
        let front = records.drop_last();
        let last = records.last();
        assert(distinct_days(front)) by {
            assert forall|a: int, b: int| 0 <= a < b < front.len() implies (#[trigger] front[a]).day@
                != (#[trigger] front[b]).day@ by {
                assert(front[a] == records[a]);
                assert(front[b] == records[b]);
            }
        }
        assert forall|d: int| has_day(front, d) implies !has_day(store, d) by {
            let k = choose|k: int| 0 <= k < front.len() && (#[trigger] front[k]).day@ == d;
            assert(records[k].day@ == d);
        }
        lemma_append_new_days(store, front);
        assert(!has_day(store + front, last.day@)) by {
            if has_day(store + front, last.day@) {
                let k = choose|k: int|
                    0 <= k < (store + front).len() && (#[trigger] (store + front)[k]).day@
                        == last.day@;
                if k < store.len() {
                    assert(store[k].day@ == last.day@);
                    assert(records[records.len() - 1].day@ == last.day@);
                    assert(has_day(records, last.day@));
                    assert(has_day(store, last.day@));
                } else {
                    assert(records[k - store.len()].day@ != records[records.len() - 1].day@);
                }
            }
        }
        lemma_push_distinct(store + front, last);
        assert((store + front).push(last) =~= store + records);
        assert(records_map(store + records) =~= records_map(store).union_prefer_right(
            records_map(records),
        ));
    }
}

/// At most one record per day: where the store holds one row per day and
/// the plan was made against the series it stands for, the store still
/// holds one row per day after the plan's writes, and stands for the old
/// series with the fresh totals laid over it.
pub proof fn lemma_writes_keep_one_record_per_day(
    store: Seq<DayTotal>,
    fresh: Map<int, int>,
    upserts: Seq<DayTotal>,
    inserts: Seq<DayTotal>,
    had_records: bool,
    last_synced: int,
)
    requires
        distinct_days(store),
        distinct_days(upserts),
        distinct_days(inserts),
        records_map(upserts) == fresh.restrict(
            upsert_days(records_map(store), had_records, last_synced),
        ),
        records_map(inserts) == fresh.remove_keys(
            upsert_days(records_map(store), had_records, last_synced),
        ),
    ensures
        distinct_days(store_after(store, upserts, inserts)),
        records_map(store_after(store, upserts, inserts)) == records_map(store).union_prefer_right(
            fresh,
        ),
{
    let days = upsert_days(records_map(store), had_records, last_synced);
    let updated = upsert_all(store, upserts);
    lemma_upsert_all(store, upserts);
    assert forall|d: int| has_day(inserts, d) implies !has_day(updated, d) by {
        lemma_records_map_keys(inserts, d);
        lemma_records_map_keys(updated, d);
        assert(!days.contains(d));
        assert(!needs_upsert(records_map(store), had_records, last_synced, d));
    }
    lemma_append_new_days(updated, inserts);
    assert(records_map(store_after(store, upserts, inserts)) =~= records_map(
        store,
    ).union_prefer_right(fresh));
}

/// Whether some fetch brought a row of `day` inside its window.
pub open spec fn freshly_fetched(windows: Seq<Window>, fetched: Seq<Seq<Row>>, day: int) -> bool {
    exists|i: int|
        0 <= i < windows.len() && (#[trigger] windows[i]).spec_contains(day) && has_row(
            fetched[i],
            day,
        )
}

/// What a synchronisation does to one day: a day keeps its place in the
/// series; a day for which no fetch brought a row inside its window keeps
/// its seconds; a day is in the series afterwards only if it was there or
/// a fetch brought it.
pub proof fn lemma_synced_series_day(
    existing: Map<int, int>,
    windows: Seq<Window>,
    fetched: Seq<Seq<Row>>,
    day: int,
)
    requires
        fetched.len() == windows.len(),
    ensures
        synced_series(existing, windows, fetched).contains_key(day) <==> existing.contains_key(day)
            || freshly_fetched(windows, fetched, day),
        !freshly_fetched(windows, fetched, day) && existing.contains_key(day) ==> synced_series(
            existing,
            windows,
            fetched,
        )[day] == existing[day],
    decreases windows.len(),
{
    if windows.len() > 0 {
        let front_windows = windows.drop_last();
        let front_fetched = fetched.drop_last();
        lemma_synced_series_day(existing, front_windows, front_fetched, day);
        let n = windows.len() - 1;
        if freshly_fetched(front_windows, front_fetched, day) {
            let i = choose|i: int|
                0 <= i < front_windows.len() && (#[trigger] front_windows[i]).spec_contains(day)
                    && has_row(front_fetched[i], day);
            assert(windows[i].spec_contains(day) && has_row(fetched[i], day));
        }
        if freshly_fetched(windows, fetched, day) {
            let i = choose|i: int|
                0 <= i < windows.len() && (#[trigger] windows[i]).spec_contains(day) && has_row(
                    fetched[i],
                    day,
                );
            if i < n {
                assert(front_windows[i].spec_contains(day) && has_row(front_fetched[i], day));
            }
        }
        if windows[n].spec_contains(day) && has_row(fetched[n], day) {
            assert(freshly_fetched(windows, fetched, day));
        }
    }
}

/// Laying the totals of the next fetch over the series reconciled so far
/// gives the series reconciled with one window more.
pub proof fn lemma_synced_series_step(
    existing: Map<int, int>,
    windows: Seq<Window>,
    fetched: Seq<Seq<Row>>,
    done: int,
)
    requires
        fetched.len() == windows.len(),
        0 <= done < windows.len(),
    ensures
        synced_series(existing, windows.take(done + 1), fetched.take(done + 1)) == synced_series(
            existing,
            windows.take(done),
            fetched.take(done),
        ).union_prefer_right(totals(fetched[done], windows[done])),
{
    assert(windows.take(done + 1).drop_last() =~= windows.take(done));
    assert(fetched.take(done + 1).drop_last() =~= fetched.take(done));
}

/// A first synchronisation fetches exactly the 365 days that end today.
pub proof fn lemma_first_sync_looks_back_a_year(last_synced: Day, today: Day)
    requires
        today@ - (LOOKBACK_DAYS - 1) >= i32::MIN,
    ensures
        sync_windows(false, last_synced, today).len() == 1,
        sync_windows(false, last_synced, today)[0].end == today,
        sync_windows(false, last_synced, today)[0].begin@ == today@ - 364,
        sync_windows(false, last_synced, today)[0].spec_len() == 365,
        forall|d: int|
            sync_windows(false, last_synced, today)[0].spec_contains(d) <==> today@ - 364 <= d
                <= today@,
{
}

/// No data is lost when the days since the last synchronisation are filled
/// in: every stored day stays; a day before the last synchronised one keeps
/// its seconds; the last synchronised day is corrected where the source has
/// rows for it and kept where it has none; each later day up to today that
/// the source has rows for comes in with the sum of its rows.
pub proof fn lemma_gap_fill_keeps_history(
    existing: Map<int, int>,
    last_synced: Day,
    today: Day,
    fetched: Seq<Seq<Row>>,
)
    requires
        last_synced@ < today@,
        fetched.len() == 2,
    ensures
        ({
            let after = synced_series(existing, sync_windows(true, last_synced, today), fetched);
            &&& forall|d: int| existing.contains_key(d) ==> after.contains_key(d)
            &&& forall|d: int|
                existing.contains_key(d) && (d < last_synced@ || d > today@) ==> after[d]
                    == existing[d]
            &&& has_row(fetched[0], last_synced@) ==> after.contains_key(last_synced@)
                && after[last_synced@] == day_sum(fetched[0], last_synced@)
            &&& !has_row(fetched[0], last_synced@) && existing.contains_key(last_synced@)
                ==> after[last_synced@] == existing[last_synced@]
            &&& forall|d: int|
                last_synced@ < d <= today@ && has_row(fetched[1], d) ==> after.contains_key(d)
                    && after[d] == day_sum(fetched[1], d)
            &&& forall|d: int|
                last_synced@ < d <= today@ && !has_row(fetched[1], d) && existing.contains_key(d)
                    ==> after[d] == existing[d]
        }),
{
    let windows = sync_windows(true, last_synced, today);
    let after = synced_series(existing, windows, fetched);
    let first = synced_series(existing, windows.drop_last(), fetched.drop_last());
    assert(windows.drop_last() =~= seq![windows[0]]);
    assert(fetched.drop_last() =~= seq![fetched[0]]);
    reveal_with_fuel(synced_series, 3);
    assert(windows.drop_last().drop_last() =~= Seq::<Window>::empty());
    assert(fetched.drop_last().drop_last() =~= Seq::<Seq<Row>>::empty());
    assert(synced_series(existing, windows.drop_last().drop_last(), fetched.drop_last().drop_last())
        == existing);
    assert(windows.drop_last().last() == windows[0]);
    assert(fetched.drop_last().last() == fetched[0]);
    assert(first == existing.union_prefer_right(totals(fetched[0], windows[0])));
    assert(after == first.union_prefer_right(totals(fetched[1], windows[1])));
}

/// Synchronising again on the same day changes nothing but today: once a
/// synchronisation has completed today and left a non-empty series, a
/// second one fetches today alone, and every other day of the series it
/// returns is as the first returned it.
pub proof fn lemma_resync_changes_today_alone(
    first: Map<int, int>,
    today: Day,
    fetched: Seq<Seq<Row>>,
)
    requires
        exists|d: int| first.contains_key(d),
        fetched.len() == 1,
    ensures
        sync_windows(true, today, today) == seq![Window { begin: today, end: today }],
        ({
            let second = synced_series(first, sync_windows(true, today, today), fetched);
            &&& forall|d: int| d != today@ ==> second.contains_key(d) == first.contains_key(d)
            &&& forall|d: int| d != today@ && first.contains_key(d) ==> second[d] == first[d]
            &&& first.contains_key(today@) ==> second.contains_key(today@)
        }),
{
    let windows = sync_windows(true, today, today);
    assert(windows =~= seq![Window { begin: today, end: today }]);
    reveal_with_fuel(synced_series, 2);
    assert(windows.drop_last() =~= Seq::<Window>::empty());
    assert(synced_series(first, windows.drop_last(), fetched.drop_last()) == first);
    assert(synced_series(first, windows, fetched) == first.union_prefer_right(
        totals(fetched[0], windows[0]),
    ));
}

/// On a day that was already synchronised, the one fetch of a skillblock
/// with records inserts nothing: today's total is updated in place.
pub proof fn lemma_resync_inserts_nothing(
    store: Seq<DayTotal>,
    today: Day,
    rows: Seq<Row>,
    inserts: Seq<DayTotal>,
)
    requires
        records_map(inserts) == totals(rows, Window { begin: today, end: today }).remove_keys(
            upsert_days(records_map(store), true, today@),
        ),
    ensures
        inserts.len() == 0,
{
    if inserts.len() > 0 {
        let d = inserts.last().day@;
        assert(records_map(inserts).contains_key(d));
        assert(needs_upsert(records_map(store), true, today@, d));
    }
}

} // verus!
