use blockplot::day::{Day, Window};
use blockplot::db::models::{Skillblock, TimeWrapper, User};
use blockplot::reconcile::{plan_windows, plan_writes};
use blockplot::routes::health::Status;
use blockplot::routes::skillblocks::{
    fetch_request, get_skillblocks, FetchRequest, Phase, RestrictKind, SyncAction, SyncError,
    SyncEvent,
};
use blockplot::series::{aggregate, day_total, DayTotal, Row, Series};

fn day(year: i32, month: u32, day: u32) -> Day {
    Day::from_ymd(year, month, day).unwrap()
}

fn user(key: bool, last_synced: Day) -> User {
    User {
        user_id: 7,
        auth_id: String::from("auth0|seven"),
        api_key: if key { Some(String::from("abc123")) } else { None },
        key_present: key,
        block_count: 1,
        created_at: 1_600_000_000,
        last_login: 1_600_000_000,
        blocks_last_fetched: last_synced,
    }
}

fn block(block_id: i32, category: &str, offline: bool) -> Skillblock {
    Skillblock {
        block_id,
        user_id: Some(7),
        category: String::from(category),
        offline_category: offline,
        skill_name: String::from("Coding"),
        description: String::from("practice"),
    }
}

fn row(on: Day, seconds: i32) -> Row {
    Row { perspective: on, time_spent: seconds }
}

/// A datastore and an analytics source held in memory.
struct World {
    blocks: Vec<Skillblock>,
    /// The stored rows of each skillblock, by `block_id`.
    store: Vec<(i32, Vec<DayTotal>)>,
    /// What the source has, by category.
    source: Vec<(String, Vec<Row>)>,
    requests: Vec<FetchRequest>,
    fail_fetch_at: Option<usize>,
    fail_storage: bool,
    advanced: usize,
}

impl World {
    fn new(blocks: Vec<Skillblock>) -> World {
        World {
            blocks,
            store: Vec::new(),
            source: Vec::new(),
            requests: Vec::new(),
            fail_fetch_at: None,
            fail_storage: false,
            advanced: 0,
        }
    }

    fn rows_of(&mut self, block_id: i32) -> &mut Vec<DayTotal> {
        if !self.store.iter().any(|(id, _)| *id == block_id) {
            self.store.push((block_id, Vec::new()));
        }
        &mut self.store.iter_mut().find(|(id, _)| *id == block_id).unwrap().1
    }

    fn perform(&mut self, action: SyncAction) -> Result<SyncEvent, SyncAction> {
        match action {
            SyncAction::LoadSkillblocks { .. } => Ok(SyncEvent::Skillblocks(self.blocks.clone())),
            SyncAction::LoadRecords { block_id } => {
                if self.fail_storage {
                    return Ok(SyncEvent::StorageFailed);
                }
                let mut records = self.rows_of(block_id).clone();
                records.sort_by(|a, b| b.day.number.cmp(&a.day.number));
                Ok(SyncEvent::Records(records))
            }
            SyncAction::Fetch(request) => {
                let at = self.requests.len();
                let window = request.window;
                let thing = request.restrict_thing.clone();
                self.requests.push(request);
                if self.fail_fetch_at == Some(at) {
                    return Ok(SyncEvent::FetchFailed);
                }
                let rows = self
                    .source
                    .iter()
                    .filter(|(category, _)| *category == thing)
                    .flat_map(|(_, rows)| rows.iter().copied())
                    .filter(|r| window.contains(&r.perspective))
                    .collect();
                Ok(SyncEvent::Rows(rows))
            }
            SyncAction::UpdateRecord { block_id, day, seconds } => {
                let mut matched = 0;
                for record in self.rows_of(block_id).iter_mut() {
                    if record.day == day {
                        record.seconds = seconds;
                        matched += 1;
                    }
                }
                Ok(SyncEvent::Updated(matched))
            }
            SyncAction::InsertRecord(record) => {
                let total = DayTotal { day: record.day_date, seconds: record.day_time };
                self.rows_of(record.block_id.unwrap()).push(total);
                Ok(SyncEvent::Inserted(1))
            }
            SyncAction::InsertRecords(records) => {
                let n = records.len();
                for record in records {
                    let total = DayTotal { day: record.day_date, seconds: record.day_time };
                    self.rows_of(record.block_id.unwrap()).push(total);
                }
                Ok(SyncEvent::Inserted(n))
            }
            SyncAction::AdvanceLastSynced { .. } => {
                self.advanced += 1;
                Ok(SyncEvent::Advanced)
            }
            other => Err(other),
        }
    }

    /// Runs one synchronisation to its answer.
    fn sync(&mut self, user: User, today: Day) -> SyncAction {
        let (mut run, mut action) = get_skillblocks(user, today);
        loop {
            match self.perform(action) {
                Ok(event) => action = run.resume(event),
                Err(answer) => {
                    assert!(run.is_finished());
                    return answer;
                }
            }
        }
    }

    fn has_duplicates(&mut self, block_id: i32) -> bool {
        let rows = self.rows_of(block_id).clone();
        (0..rows.len()).any(|i| (0..i).any(|j| rows[i].day == rows[j].day))
    }
}

fn wrapper(answer: SyncAction) -> TimeWrapper {
    match answer {
        SyncAction::Respond(wrapper) => wrapper,
        other => panic!("no response: {:?}", other),
    }
}

#[test]
fn same_day_rows_are_summed() {
    let d = day(2021, 3, 1);
    let rows = vec![row(d, 100), row(d, 200), row(d, 50)];
    assert_eq!(day_total(&rows, &d), Some(350));
    let series = aggregate(&rows, &Window::single(d)).unwrap();
    assert_eq!(series.get(&d), Some(350));
    assert_eq!(series.len(), 1);
}

#[test]
fn same_day_rows_are_summed_and_stored() {
    let today = day(2021, 3, 1);
    let mut world = World::new(vec![block(1, "software development", false)]);
    world.source.push((
        String::from("software development"),
        vec![row(today, 100), row(today, 200), row(today, 50)],
    ));
    let data = wrapper(world.sync(user(true, today), today)).data;
    assert_eq!(data.len(), 1);
    assert_eq!(data[0].time_data.get(&today), Some(350));
    assert_eq!(world.rows_of(1).clone(), vec![DayTotal { day: today, seconds: 350 }]);
}

#[test]
fn days_without_rows_are_absent() {
    let d = day(2021, 3, 1);
    let other = day(2021, 3, 2);
    let rows = vec![row(d, 10)];
    let series = aggregate(&rows, &Window { begin: d, end: other }).unwrap();
    assert_eq!(series.get(&d), Some(10));
    assert_eq!(series.get(&other), None);
    assert_eq!(day_total(&rows, &other), Some(0));
}

#[test]
fn rows_outside_the_window_are_left_out() {
    let d = day(2021, 3, 1);
    let before = day(2021, 2, 28);
    let rows = vec![row(before, 10), row(d, 20), row(day(2021, 3, 2), 30)];
    let series = aggregate(&rows, &Window::single(d)).unwrap();
    assert_eq!(series.records(), vec![DayTotal { day: d, seconds: 20 }]);
}

#[test]
fn totals_beyond_i32_are_refused() {
    let d = day(2021, 3, 1);
    let rows = vec![row(d, i32::MAX), row(d, 1)];
    assert_eq!(day_total(&rows, &d), None);
    assert!(aggregate(&rows, &Window::single(d)).is_none());
    let fits = vec![row(d, i32::MAX), row(d, 1), row(d, -1)];
    assert_eq!(day_total(&fits, &d), Some(i32::MAX));
    let low = vec![row(d, i32::MIN), row(d, -1)];
    assert_eq!(day_total(&low, &d), None);
}

#[test]
fn first_sync_window_spans_365_days() {
    let today = day(2021, 3, 1);
    let window = Window::lookback(today).unwrap();
    assert_eq!(window.end, today);
    assert_eq!(window.begin, day(2020, 3, 2));
    assert_eq!(window.end.number - window.begin.number + 1, 365);
    assert!(window.contains(&Day::from_days(today.number - 364)));
    assert!(!window.contains(&Day::from_days(today.number - 365)));
    assert!(window.contains(&today));
    assert!(!window.contains(&Day::from_days(today.number + 1)));
    assert!(Window::lookback(Day::from_days(i32::MIN + 363)).is_none());
    assert!(Window::lookback(Day::from_days(i32::MIN + 364)).is_some());
}

#[test]
fn first_sync_fetches_the_year_that_ends_today() {
    let today = day(2021, 3, 1);
    let mut world = World::new(vec![block(1, "software development", false)]);
    let oldest = Day::from_days(today.number - 364);
    let too_old = Day::from_days(today.number - 365);
    world.source.push((
        String::from("software development"),
        vec![row(too_old, 5), row(oldest, 7), row(today, 11)],
    ));
    let data = wrapper(world.sync(user(true, day(2021, 2, 1)), today)).data;
    assert_eq!(world.requests.len(), 1);
    assert_eq!(world.requests[0].restrict_begin, "2020-03-02");
    assert_eq!(world.requests[0].restrict_end, "2021-03-01");
    assert_eq!(world.requests[0].restrict_kind, RestrictKind::Overview);
    assert_eq!(world.requests[0].restrict_thing, "software development");
    assert_eq!(world.requests[0].api_key, "abc123");
    assert_eq!(data[0].time_data.len(), 2);
    assert_eq!(data[0].time_data.get(&oldest), Some(7));
    assert_eq!(data[0].time_data.get(&today), Some(11));
    assert_eq!(data[0].time_data.get(&too_old), None);
    assert_eq!(world.rows_of(1).len(), 2);
    assert_eq!(world.advanced, 1);
}

#[test]
fn offline_category_asks_for_the_category_variant() {
    let today = day(2021, 3, 1);
    let mut world = World::new(vec![block(1, "reading", true)]);
    let _ = world.sync(user(true, today), today);
    assert_eq!(world.requests[0].restrict_kind, RestrictKind::Category);
    let request = fetch_request(
        &String::from("k"),
        &block(2, "music", false),
        Window::single(today),
    )
    .unwrap();
    assert_eq!(request.restrict_kind, RestrictKind::Overview);
    assert_eq!(request.restrict_begin, "2021-03-01");
    assert_eq!(request.restrict_end, "2021-03-01");
    assert!(fetch_request(
        &String::from("k"),
        &block(2, "music", false),
        Window::single(Day::from_days(i32::MAX)),
    )
    .is_none());
}

#[test]
fn gap_fill_keeps_history() {
    let today = day(2021, 3, 20);
    let at = |back: i32| Day::from_days(today.number - back);
    let mut world = World::new(vec![block(1, "software development", false)]);
    for back in 5..=10 {
        world.rows_of(1).push(DayTotal { day: at(back), seconds: 100 + back });
    }
    let mut rows = vec![row(at(5), 900), row(at(5), 9)];
    for back in 0..=4 {
        rows.push(row(at(back), 10 + back));
    }
    rows.push(row(at(8), 1));
    world.source.push((String::from("software development"), rows));
    let data = wrapper(world.sync(user(true, at(5)), today)).data;
    let series = &data[0].time_data;
    assert_eq!(series.len(), 11);
    for back in 6..=10 {
        assert_eq!(series.get(&at(back)), Some(100 + back));
    }
    assert_eq!(series.get(&at(5)), Some(909));
    for back in 0..=4 {
        assert_eq!(series.get(&at(back)), Some(10 + back));
    }
    assert_eq!(world.requests.len(), 2);
    assert_eq!(world.requests[0].window, Window::single(at(5)));
    assert_eq!(world.requests[1].window, Window { begin: at(4), end: today });
    assert_eq!(world.rows_of(1).len(), 11);
    assert!(!world.has_duplicates(1));
}

#[test]
fn last_synced_day_without_rows_keeps_its_total() {
    let today = day(2021, 3, 20);
    let last = day(2021, 3, 19);
    let mut world = World::new(vec![block(1, "software development", false)]);
    world.rows_of(1).push(DayTotal { day: last, seconds: 77 });
    let data = wrapper(world.sync(user(true, last), today)).data;
    assert_eq!(data[0].time_data.get(&last), Some(77));
    assert_eq!(data[0].time_data.len(), 1);
    assert_eq!(world.rows_of(1).clone(), vec![DayTotal { day: last, seconds: 77 }]);
}

#[test]
fn missing_record_of_last_synced_day_is_inserted() {
    let today = day(2021, 3, 20);
    let last = day(2021, 3, 19);
    let older = day(2021, 3, 10);
    let mut world = World::new(vec![block(1, "software development", false)]);
    world.rows_of(1).push(DayTotal { day: older, seconds: 5 });
    world.source.push((String::from("software development"), vec![row(last, 40), row(last, 2)]));
    let (mut run, action) = get_skillblocks(user(true, last), today);
    let mut action = run.resume(world.perform(action).unwrap());
    action = run.resume(world.perform(action).unwrap());
    action = run.resume(world.perform(action).unwrap());
    match &action {
        SyncAction::UpdateRecord { block_id, day, seconds } => {
            assert_eq!((*block_id, *day, *seconds), (1, last, 42));
        }
        other => panic!("no update: {:?}", other),
    }
    assert_eq!(run.phase, Phase::AwaitUpdated);
    action = run.resume(SyncEvent::Updated(0));
    match &action {
        SyncAction::InsertRecord(record) => {
            assert_eq!(record.block_id, Some(1));
            assert_eq!(record.day_date, last);
            assert_eq!(record.day_time, 42);
        }
        other => panic!("no insert: {:?}", other),
    }
    assert_eq!(run.phase, Phase::AwaitInserted);
}

#[test]
fn resync_is_idempotent() {
    let today = day(2021, 3, 20);
    let at = |back: i32| Day::from_days(today.number - back);
    let mut world =
        World::new(vec![block(1, "software development", false), block(2, "reading", true)]);
    world.source.push((
        String::from("software development"),
        vec![row(at(300), 60), row(at(2), 120), row(today, 30)],
    ));
    world.source.push((String::from("reading"), vec![row(at(1), 600)]));
    let first = wrapper(world.sync(user(true, at(30)), today)).data;
    world.source[0].1.push(row(today, 15));
    world.source[0].1.push(row(at(2), 1000));
    let second = wrapper(world.sync(user(true, today), today)).data;
    assert!(!world.has_duplicates(1));
    assert!(!world.has_duplicates(2));
    assert_eq!(world.rows_of(1).len(), 3);
    assert_eq!(world.rows_of(2).len(), 1);
    assert_eq!(first.len(), 2);
    assert_eq!(second.len(), 2);
    for (a, b) in first.iter().zip(second.iter()) {
        assert_eq!(a.category, b.category);
        assert_eq!(a.time_data.len(), b.time_data.len());
        for record in a.time_data.records() {
            if record.day != today {
                assert_eq!(b.time_data.get(&record.day), Some(record.seconds));
            }
        }
    }
    assert_eq!(first[0].time_data.get(&today), Some(30));
    assert_eq!(second[0].time_data.get(&today), Some(45));
    assert_eq!(second[0].time_data.get(&at(2)), Some(120));
    assert_eq!(world.advanced, 2);
}

#[test]
fn interrupted_sync_does_not_store_a_day_twice() {
    let today = day(2021, 3, 20);
    let at = |back: i32| Day::from_days(today.number - back);
    let mut world =
        World::new(vec![block(1, "software development", false), block(2, "reading", true)]);
    world.rows_of(1).push(DayTotal { day: at(3), seconds: 1 });
    world.rows_of(2).push(DayTotal { day: at(3), seconds: 2 });
    world.source.push((String::from("software development"), vec![row(at(1), 10)]));
    world.fail_fetch_at = Some(2);
    let answer = world.sync(user(true, at(3)), today);
    assert_eq!(answer.response_status(), Some(Status::InternalServerError));
    assert_eq!(world.advanced, 0);
    assert_eq!(world.rows_of(1).len(), 2);
    world.fail_fetch_at = None;
    world.source[0].1.push(row(at(1), 5));
    let data = wrapper(world.sync(user(true, at(3)), today)).data;
    assert!(!world.has_duplicates(1));
    assert_eq!(world.rows_of(1).len(), 2);
    assert_eq!(data[0].time_data.get(&at(1)), Some(15));
    assert!(world.rows_of(1).contains(&DayTotal { day: at(1), seconds: 15 }));
    assert_eq!(world.advanced, 1);
}

#[test]
fn user_without_key_is_not_found_and_nothing_is_fetched() {
    let today = day(2021, 3, 1);
    let mut world = World::new(vec![block(1, "software development", false)]);
    let answer = world.sync(user(false, today), today);
    assert!(matches!(answer, SyncAction::Fail(SyncError::NoApiKey)));
    assert_eq!(answer.response_status(), Some(Status::NotFound));
    assert_eq!(world.requests.len(), 0);
    assert_eq!(world.advanced, 0);
    let (mut run, _) = get_skillblocks(user(false, today), today);
    assert!(run.is_finished());
    assert!(matches!(run.resume(SyncEvent::Rows(Vec::new())), SyncAction::Nothing));
    let mut flagged = user(true, today);
    flagged.api_key = None;
    let (_, action) = get_skillblocks(flagged, today);
    assert!(matches!(action, SyncAction::Fail(SyncError::NoApiKey)));
}

#[test]
fn user_without_skillblocks_is_not_found() {
    let today = day(2021, 3, 1);
    let mut world = World::new(Vec::new());
    let answer = world.sync(user(true, today), today);
    assert!(matches!(answer, SyncAction::Fail(SyncError::NoSkillblocks)));
    assert_eq!(answer.response_status(), Some(Status::NotFound));
    assert_eq!(world.requests.len(), 0);
    assert_eq!(world.advanced, 0);
}

#[test]
fn failed_fetch_aborts_before_the_last_synced_day_advances() {
    let today = day(2021, 3, 1);
    let mut world =
        World::new(vec![block(1, "software development", false), block(2, "reading", true)]);
    world.fail_fetch_at = Some(1);
    let answer = world.sync(user(true, today), today);
    assert!(matches!(answer, SyncAction::Fail(SyncError::ExternalService)));
    assert_eq!(answer.response_status(), Some(Status::InternalServerError));
    assert_eq!(world.advanced, 0);
}

#[test]
fn failed_storage_aborts_the_sync() {
    let today = day(2021, 3, 1);
    let mut world = World::new(vec![block(1, "software development", false)]);
    world.fail_storage = true;
    let answer = world.sync(user(true, today), today);
    assert!(matches!(answer, SyncAction::Fail(SyncError::Storage)));
    assert_eq!(SyncError::Storage.status(), Status::InternalServerError);
    assert_eq!(world.advanced, 0);
}

#[test]
fn absurd_totals_and_days_end_the_sync_out_of_range() {
    let today = day(2021, 3, 1);
    let mut world = World::new(vec![block(1, "software development", false)]);
    world.source.push((
        String::from("software development"),
        vec![row(today, i32::MAX), row(today, i32::MAX)],
    ));
    let answer = world.sync(user(true, today), today);
    assert!(matches!(answer, SyncAction::Fail(SyncError::OutOfRange)));
    assert_eq!(world.advanced, 0);
    let mut far = World::new(vec![block(1, "software development", false)]);
    let edge = Day::from_days(i32::MIN + 10);
    let answer = far.sync(user(true, edge), edge);
    assert!(matches!(answer, SyncAction::Fail(SyncError::OutOfRange)));
    assert_eq!(far.requests.len(), 0);
}

#[test]
fn unexpected_event_ends_the_sync() {
    let today = day(2021, 3, 1);
    let (mut run, _) = get_skillblocks(user(true, today), today);
    let action = run.resume(SyncEvent::Advanced);
    assert!(matches!(action, SyncAction::Fail(SyncError::Unexpected)));
    assert_eq!(SyncError::Unexpected.status(), Status::InternalServerError);
    assert!(run.is_finished());
    assert!(matches!(run.resume(SyncEvent::Advanced), SyncAction::Nothing));
}

#[test]
fn windows_of_a_skillblock_with_records() {
    let today = day(2021, 3, 20);
    let last = day(2021, 3, 15);
    assert_eq!(
        plan_windows(true, last, today).unwrap(),
        vec![Window::single(last), Window { begin: day(2021, 3, 16), end: today }]
    );
    assert_eq!(plan_windows(true, today, today).unwrap(), vec![Window::single(today)]);
    assert_eq!(plan_windows(true, day(2021, 3, 21), today).unwrap().len(), 1);
    assert_eq!(
        plan_windows(false, last, today).unwrap(),
        vec![Window { begin: Day::from_days(today.number - 364), end: today }]
    );
    assert!(Window::since(today, today).is_none());
    assert!(Window::since(Day::from_days(i32::MAX), Day::from_days(i32::MAX)).is_none());
}

#[test]
fn fresh_days_are_split_into_updates_and_inserts() {
    let last = day(2021, 3, 15);
    let known = day(2021, 3, 16);
    let new = day(2021, 3, 17);
    let mut before = Series::new();
    before.set(known, 1);
    let mut fresh = Series::new();
    fresh.set(last, 10);
    fresh.set(known, 20);
    fresh.set(new, 30);
    let plan = plan_writes(&fresh, &before, true, last);
    assert_eq!(
        plan.upserts,
        vec![DayTotal { day: last, seconds: 10 }, DayTotal { day: known, seconds: 20 }]
    );
    assert_eq!(plan.inserts, vec![DayTotal { day: new, seconds: 30 }]);
    let first = plan_writes(&fresh, &Series::new(), false, last);
    assert!(first.upserts.is_empty());
    assert_eq!(first.inserts.len(), 3);
}

#[test]
fn series_holds_one_total_per_day() {
    let a = day(2021, 3, 1);
    let b = day(2021, 3, 2);
    let mut series = Series::new();
    assert!(series.is_empty());
    series.set(a, 1);
    series.set(b, 2);
    series.set(a, 3);
    assert_eq!(series.len(), 2);
    assert_eq!(series.get(&a), Some(3));
    assert!(series.contains(&b));
    assert!(!series.contains(&day(2021, 3, 3)));
    let records = vec![
        DayTotal { day: a, seconds: 1 },
        DayTotal { day: b, seconds: 2 },
        DayTotal { day: a, seconds: 9 },
    ];
    let from = Series::from_records(&records);
    assert_eq!(from.len(), 2);
    assert_eq!(from.get(&a), Some(9));
    let mut over = Series::new();
    over.set(b, 20);
    over.set(day(2021, 3, 3), 30);
    series.overlay(&over);
    assert_eq!(series.get(&a), Some(3));
    assert_eq!(series.get(&b), Some(20));
    assert_eq!(series.get(&day(2021, 3, 3)), Some(30));
    assert_eq!(series.clone().records(), series.records());
}
