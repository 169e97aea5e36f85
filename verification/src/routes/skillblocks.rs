//! Synchronising the skillblocks of a user with the analytics source, and
//! creating a skillblock.
//!
//! The synchronisation is a state machine: it is handed what a read, a fetch
//! or a write brought, and answers with the next thing to do.

use crate::day::{day_text, Day, Window, LOOKBACK_DAYS};
use crate::db::models::{new_date_times, new_records, FormData, NewDateTime, NewSkillblock,
    Skillblock, TimeData, TimeWrapper, User};
use crate::reconcile::{lemma_gap_fill_keeps_history, lemma_resync_changes_today_alone,
    lemma_writes_keep_one_record_per_day, plan_windows, plan_writes, store_after, sync_windows,
    synced_series, upsert_days};
use crate::routes::health::{Redirect, Status};
use crate::routes::index::FlashMessage;
use crate::series::{aggregate, day_sum, distinct_days, has_row, lemma_records_map_at, records_map,
    totals, totals_fit, DayTotal, Row, Series};
use vstd::prelude::*;
use vstd::string::StringExecFns;

verus! {

/// Which variant of the analytics query a skillblock asks for.
#[derive(Clone, Copy, Debug, PartialEq, Eq, Structural)]
pub enum RestrictKind {
    /// For a category recorded offline.
    Category,
    /// For everything else.
    Overview,
}

/// One query to the analytics source: daily totals of one category over a
/// range of days.
#[derive(Debug)]
pub struct FetchRequest {
    pub api_key: String,
    /// The first day, as chrono prints a date.
    pub restrict_begin: String,
    /// The last day, as chrono prints a date.
    pub restrict_end: String,
    pub restrict_kind: RestrictKind,
    pub restrict_thing: String,
    pub window: Window,
}

/// Why a synchronisation ended without a response.
#[derive(Clone, Copy, Debug, PartialEq, Eq, Structural)]
pub enum SyncError {
    /// The user has no key for the analytics source.
    NoApiKey,
    /// The user owns no skillblock.
    NoSkillblocks,
    /// The analytics source could not be reached or answered with an error.
    ExternalService,
    /// The datastore failed.
    Storage,
    /// A day or a total lies outside what can be represented.
    OutOfRange,
    /// An event came that the current phase does not expect.
    Unexpected,
}

impl SyncError {
    /// The status the error is answered with.
    pub open spec fn spec_status(self) -> Status {
        match self {
            SyncError::NoApiKey => Status::NotFound,
            SyncError::NoSkillblocks => Status::NotFound,
            _ => Status::InternalServerError,
        }
    }

    /// The status the error is answered with.
    pub fn status(&self) -> (s: Status)
        ensures
            s == self.spec_status(),
    {
        match self {
            SyncError::NoApiKey => Status::NotFound,
            SyncError::NoSkillblocks => Status::NotFound,
            _ => Status::InternalServerError,
        }
    }
}

/// What the synchronisation waits for.
#[derive(Clone, Copy, Debug, PartialEq, Eq, Structural)]
pub enum Phase {
    AwaitSkillblocks,
    AwaitRecords,
    AwaitRows,
    AwaitUpdated,
    AwaitInserted,
    AwaitBatch,
    AwaitAdvanced,
    Finished,
}

/// What the synchronisation asks for next.
#[derive(Debug)]
pub enum SyncAction {
    /// Read the skillblocks of the user.
    LoadSkillblocks { user_id: i32 },
    /// Read the daily records of a skillblock.
    LoadRecords { block_id: i32 },
    /// Query the analytics source.
    Fetch(FetchRequest),
    /// Set the seconds of the record of a skillblock and a day.
    UpdateRecord { block_id: i32, day: Day, seconds: i32 },
    /// Insert one record.
    InsertRecord(NewDateTime),
    /// Insert records in one batch.
    InsertRecords(Vec<NewDateTime>),
    /// Record that the user's skillblocks are synchronised up to today.
    AdvanceLastSynced { auth_id: String, today: Day },
    /// Answer with the time series.
    Respond(TimeWrapper),
    /// Answer with an error.
    Fail(SyncError),
    /// The synchronisation has ended.
    Nothing,
}

/// What a read, a fetch or a write brought.
#[derive(Debug)]
pub enum SyncEvent {
    Skillblocks(Vec<Skillblock>),
    /// The `(day, seconds)` records of the skillblock in work.
    Records(Vec<DayTotal>),
    Rows(Vec<Row>),
    /// How many records an update matched.
    Updated(usize),
    /// How many records an insert stored.
    Inserted(usize),
    Advanced,
    FetchFailed,
    StorageFailed,
}

/// A synchronisation in progress.
#[derive(Debug)]
pub struct SyncRun {
    pub phase: Phase,
    pub user: User,
    pub today: Day,
    pub blocks: Vec<Skillblock>,
    /// The skillblock in work.
    pub index: usize,
    /// Whether the skillblock in work had records.
    pub had_records: bool,
    /// The windows to fetch for the skillblock in work.
    pub windows: Vec<Window>,
    /// The next window to fetch.
    pub window_index: usize,
    /// The series of the skillblock in work, as far as reconciled.
    pub series: Series,
    /// The records of the last fetch to update in place.
    pub upserts: Vec<DayTotal>,
    /// The next record to update.
    pub cursor: usize,
    /// The records of the last fetch still to insert.
    pub inserts: Vec<DayTotal>,
    /// The series of the skillblocks done.
    pub data: Vec<TimeData>,
}

/// Whether the user has a key for the analytics source on file.
pub open spec fn has_key(user: User) -> bool {
    user.key_present && user.api_key.is_some()
}

/// Whether both ends of the window can be written as dates.
pub open spec fn requestable(window: Window) -> bool {
    day_text(window.begin@).is_some() && day_text(window.end@).is_some()
}

/// Whether `request` is the query for `block` over `window`.
pub open spec fn request_for(
    request: FetchRequest,
    api_key: String,
    block: Skillblock,
    window: Window,
) -> bool {
    &&& request.api_key == api_key
    &&& day_text(window.begin@) == Some(request.restrict_begin@)
    &&& day_text(window.end@) == Some(request.restrict_end@)
    &&& request.restrict_kind == if block.offline_category {
        RestrictKind::Category
    } else {
        RestrictKind::Overview
    }
    &&& request.restrict_thing == block.category
    &&& request.window == window
}

/// Whether both ends of the window lie in the years 1 to 9999.
pub open spec fn ordinary(window: Window) -> bool {
    window.begin.spec_is_ordinary() && window.end.spec_is_ordinary()
}

/// The query for the totals of `block` over `window`, where both ends of
/// the window can be written as dates, as they can in the years 1 to 9999.
pub fn fetch_request(api_key: &String, block: &Skillblock, window: Window) -> (r: Option<
    FetchRequest,
>)
    ensures
        r.is_some() == requestable(window),
        ordinary(window) ==> r.is_some(),
        r matches Some(request) ==> request_for(request, *api_key, *block, window),
{
    let begin = window.begin.text();
    let end = window.end.text();
    match (begin, end) {
        (Some(restrict_begin), Some(restrict_end)) => Some(
            FetchRequest {
                api_key: api_key.clone(),
                restrict_begin,
                restrict_end,
                restrict_kind: if block.offline_category {
                    RestrictKind::Category
                } else {
                    RestrictKind::Overview
                },
                restrict_thing: block.category.clone(),
                window,
            },
        ),
        _ => None,
    }
}

/// Whether `data` is the series `series` under the names of `block`.
pub open spec fn time_data_of(data: TimeData, block: Skillblock, series: Map<int, int>) -> bool {
    &&& data.category == block.category
    &&& data.skill_name == block.skill_name
    &&& data.skill_description == block.description
    &&& data.time_data@ == series
}

/// The run ends with `error`.
pub open spec fn fails(pre: SyncRun, post: SyncRun, action: SyncAction, error: SyncError) -> bool {
    post == (SyncRun { phase: Phase::Finished, ..pre }) && action == SyncAction::Fail(error)
}

/// From `mid`, the run goes on with what is due next: the next update, the
/// batch of inserts, the next fetch, and after the last window of a
/// skillblock the next skillblock, or after the last skillblock the advance
/// of the last synchronised day.
pub open spec fn proceeds(mid: SyncRun, post: SyncRun, action: SyncAction) -> bool {
    if mid.index >= mid.blocks@.len() {
        fails(mid, post, action, SyncError::Unexpected)
    } else if mid.cursor < mid.upserts@.len() {
        &&& post == (SyncRun { phase: Phase::AwaitUpdated, ..mid })
        &&& action == SyncAction::UpdateRecord {
            block_id: mid.blocks@[mid.index as int].block_id,
            day: mid.upserts@[mid.cursor as int].day,
            seconds: mid.upserts@[mid.cursor as int].seconds,
        }
    } else if mid.inserts@.len() > 0 {
        &&& post == (SyncRun { phase: Phase::AwaitBatch, ..mid })
        &&& action matches SyncAction::InsertRecords(records)
        &&& records@ == new_records(mid.blocks@[mid.index as int].block_id, mid.inserts@)
    } else if mid.window_index < mid.windows@.len() {
        if !has_key(mid.user) {
            fails(mid, post, action, SyncError::NoApiKey)
        } else {
            &&& ordinary(mid.windows@[mid.window_index as int]) ==> requestable(
                mid.windows@[mid.window_index as int],
            )
            &&& if !requestable(mid.windows@[mid.window_index as int]) {
                fails(mid, post, action, SyncError::OutOfRange)
            } else {
                &&& post == (SyncRun { phase: Phase::AwaitRows, ..mid })
                &&& action matches SyncAction::Fetch(request)
                &&& request_for(
                    request,
                    mid.user.api_key.unwrap(),
                    mid.blocks@[mid.index as int],
                    mid.windows@[mid.window_index as int],
                )
            }
        }
    } else {
        &&& post.data@.len() == mid.data@.len() + 1
        &&& post.data@.drop_last() == mid.data@
        &&& time_data_of(post.data@.last(), mid.blocks@[mid.index as int], mid.series@)
        &&& post.index == mid.index + 1
        &&& post == (SyncRun { phase: post.phase, index: post.index, data: post.data, ..mid })
        &&& if mid.index + 1 < mid.blocks@.len() {
            &&& post.phase == Phase::AwaitRecords
            &&& action == SyncAction::LoadRecords {
                block_id: mid.blocks@[mid.index + 1].block_id,
            }
        } else {
            &&& post.phase == Phase::AwaitAdvanced
            &&& action == SyncAction::AdvanceLastSynced {
                auth_id: mid.user.auth_id,
                today: mid.today,
            }
        }
    }
}

/// `mid` is `pre` with the skillblock in work set up from its stored
/// `records`: the series they stand for, and the windows to fetch.
pub open spec fn begins_block(pre: SyncRun, records: Seq<DayTotal>, mid: SyncRun) -> bool {
    &&& mid.had_records == (records.len() > 0)
    &&& mid.series@ == records_map(records)
    &&& mid.windows@ == sync_windows(mid.had_records, pre.user.blocks_last_fetched, pre.today)
    &&& mid.window_index == 0
    &&& mid.upserts@ == Seq::<DayTotal>::empty()
    &&& mid.cursor == 0
    &&& mid.inserts@ == Seq::<DayTotal>::empty()
    &&& mid == (SyncRun {
        had_records: mid.had_records,
        series: mid.series,
        windows: mid.windows,
        window_index: mid.window_index,
        upserts: mid.upserts,
        cursor: mid.cursor,
        inserts: mid.inserts,
        ..pre
    })
}

/// `mid` is `pre` with the rows of the window in work reconciled: their
/// totals laid over the series, and split into the records to update in
/// place and the records to insert.
pub open spec fn takes_rows(pre: SyncRun, rows: Seq<Row>, mid: SyncRun) -> bool {
    let window = pre.windows@[pre.window_index as int];
    let fresh = totals(rows, window);
    let in_place = upsert_days(pre.series@, pre.had_records, pre.user.blocks_last_fetched@);
    &&& mid.series@ == pre.series@.union_prefer_right(fresh)
    &&& distinct_days(mid.upserts@)
    &&& distinct_days(mid.inserts@)
    &&& records_map(mid.upserts@) == fresh.restrict(in_place)
    &&& records_map(mid.inserts@) == fresh.remove_keys(in_place)
    &&& mid.cursor == 0
    &&& mid.window_index == pre.window_index + 1
    &&& mid == (SyncRun {
        series: mid.series,
        upserts: mid.upserts,
        cursor: mid.cursor,
        inserts: mid.inserts,
        window_index: mid.window_index,
        ..pre
    })
}

/// The transitions of a synchronisation: what `post` and `action` follow
/// from `pre` and `event`.
pub open spec fn resumes(pre: SyncRun, event: SyncEvent, post: SyncRun, action: SyncAction) -> bool {
    match (pre.phase, event) {
        (Phase::Finished, _) => post == pre && action == SyncAction::Nothing,
        (_, SyncEvent::FetchFailed) => fails(pre, post, action, SyncError::ExternalService),
        (_, SyncEvent::StorageFailed) => fails(pre, post, action, SyncError::Storage),
        (Phase::AwaitSkillblocks, SyncEvent::Skillblocks(blocks)) => {
            if blocks@.len() == 0 {
                fails(pre, post, action, SyncError::NoSkillblocks)
            } else {
                &&& post == (SyncRun { phase: Phase::AwaitRecords, blocks, index: 0, ..pre })
                &&& action == SyncAction::LoadRecords { block_id: blocks@[0].block_id }
            }
        },
        (Phase::AwaitRecords, SyncEvent::Records(records)) => {
            if pre.index >= pre.blocks@.len() {
                fails(pre, post, action, SyncError::Unexpected)
            } else if records@.len() == 0 && pre.today@ - (LOOKBACK_DAYS - 1) < i32::MIN {
                fails(pre, post, action, SyncError::OutOfRange)
            } else {
                exists|mid: SyncRun| #[trigger]
                    begins_block(pre, records@, mid) && proceeds(mid, post, action)
            }
        },
        (Phase::AwaitRows, SyncEvent::Rows(rows)) => {
            if pre.window_index >= pre.windows@.len() {
                fails(pre, post, action, SyncError::Unexpected)
            } else if !totals_fit(rows@, pre.windows@[pre.window_index as int]) {
                fails(pre, post, action, SyncError::OutOfRange)
            } else {
                exists|mid: SyncRun| #[trigger]
                    takes_rows(pre, rows@, mid) && proceeds(mid, post, action)
            }
        },
        (Phase::AwaitUpdated, SyncEvent::Updated(matched)) => {
            if pre.index >= pre.blocks@.len() || pre.cursor >= pre.upserts@.len() {
                fails(pre, post, action, SyncError::Unexpected)
            } else if matched == 0 {
                &&& post == (SyncRun { phase: Phase::AwaitInserted, ..pre })
                &&& action == SyncAction::InsertRecord(
                    NewDateTime {
                        block_id: Some(pre.blocks@[pre.index as int].block_id),
                        day_time: pre.upserts@[pre.cursor as int].seconds,
                        day_date: pre.upserts@[pre.cursor as int].day,
                    },
                )
            } else {
                proceeds(SyncRun { cursor: (pre.cursor + 1) as usize, ..pre }, post, action)
            }
        },
        (Phase::AwaitInserted, SyncEvent::Inserted(_)) => {
            if pre.cursor >= pre.upserts@.len() {
                fails(pre, post, action, SyncError::Unexpected)
            } else {
                proceeds(SyncRun { cursor: (pre.cursor + 1) as usize, ..pre }, post, action)
            }
        },
        (Phase::AwaitBatch, SyncEvent::Inserted(_)) => {
            exists|mid: SyncRun|
                mid.inserts@ == Seq::<DayTotal>::empty() && mid == (SyncRun {
                    inserts: mid.inserts,
                    ..pre
                }) && #[trigger] proceeds(mid, post, action)
        },
        (Phase::AwaitAdvanced, SyncEvent::Advanced) => {
            &&& action matches SyncAction::Respond(wrapper)
            &&& wrapper.data == pre.data
            &&& post.data@ == Seq::<TimeData>::empty()
            &&& post == (SyncRun { phase: Phase::Finished, data: post.data, ..pre })
        },
        _ => fails(pre, post, action, SyncError::Unexpected),
    }
}

/// How a synchronisation starts: with the read of the user's skillblocks,
/// or, for a user without a key, with the refusal.
pub open spec fn starts(user: User, today: Day, run: SyncRun, action: SyncAction) -> bool {
    &&& run.user == user
    &&& run.today == today
    &&& run.blocks@.len() == 0
    &&& run.data@.len() == 0
    &&& run.index == 0
    &&& if has_key(user) {
        run.phase == Phase::AwaitSkillblocks && action == (SyncAction::LoadSkillblocks {
            user_id: user.user_id,
        })
    } else {
        run.phase == Phase::Finished && action == SyncAction::Fail(SyncError::NoApiKey)
    }
}

/// Starts the synchronisation of the skillblocks of `user` on the day
/// `today`. A user without a key for the analytics source is refused before
/// anything is read or fetched.
pub fn get_skillblocks(user: User, today: Day) -> (r: (SyncRun, SyncAction))
    ensures
        starts(user, today, r.0, r.1),
        consistent(r.0),
{
    let ready = user.key_present && user.api_key.is_some();
    let user_id = user.user_id;
    let run = SyncRun {
        phase: if ready {
            Phase::AwaitSkillblocks
        } else {
            Phase::Finished
        },
        user,
        today,
        blocks: Vec::new(),
        index: 0,
        had_records: false,
        windows: Vec::new(),
        window_index: 0,
        series: Series::new(),
        upserts: Vec::new(),
        cursor: 0,
        inserts: Vec::new(),
        data: Vec::new(),
    };
    if ready {
        (run, SyncAction::LoadSkillblocks { user_id })
    } else {
        (run, SyncAction::Fail(SyncError::NoApiKey))
    }
}

impl SyncRun {
    /// Whether the run has ended.
    pub fn is_finished(&self) -> (b: bool)
        ensures
            b == (self.phase == Phase::Finished),
    {
        self.phase == Phase::Finished
    }

    /// Ends the run with `error`.
    fn fail(&mut self, error: SyncError) -> (action: SyncAction)
        ensures
            fails(*old(self), *final(self), action, error),
    {
        self.phase = Phase::Finished;
        SyncAction::Fail(error)
    }

    /// Goes on with what is due next.
    fn proceed(&mut self) -> (action: SyncAction)
        ensures
            proceeds(*old(self), *final(self), action),
    {
        if self.index >= self.blocks.len() {
            return self.fail(SyncError::Unexpected);
        }
        let block_id = self.blocks[self.index].block_id;
        if self.cursor < self.upserts.len() {
            let record = self.upserts[self.cursor];
            self.phase = Phase::AwaitUpdated;
            return SyncAction::UpdateRecord { block_id, day: record.day, seconds: record.seconds };
        }
        if self.inserts.len() > 0 {
            let records = new_date_times(block_id, &self.inserts);
            self.phase = Phase::AwaitBatch;
            return SyncAction::InsertRecords(records);
        }
        if self.window_index < self.windows.len() {
            if !self.user.key_present {
                return self.fail(SyncError::NoApiKey);
            }
            let request = match &self.user.api_key {
                Some(api_key) => fetch_request(
                    api_key,
                    &self.blocks[self.index],
                    self.windows[self.window_index],
                ),
                None => {
                    return self.fail(SyncError::NoApiKey);
                },
            };
            return match request {
                Some(request) => {
                    self.phase = Phase::AwaitRows;
                    SyncAction::Fetch(request)
                },
                None => self.fail(SyncError::OutOfRange),
            };
        }
        let block = &self.blocks[self.index];
        let done = TimeData {
            category: block.category.clone(),
            skill_name: block.skill_name.clone(),
            skill_description: block.description.clone(),
            time_data: self.series.clone(),
        };
        self.data.push(done);
        self.index = self.index + 1;
        proof {
            assert(self.data@.drop_last() =~= old(self).data@);
            assert(time_data_of(
                self.data@.last(),
                old(self).blocks@[old(self).index as int],
                old(self).series@,
            ));
        }
        if self.index < self.blocks.len() {
            self.phase = Phase::AwaitRecords;
            SyncAction::LoadRecords { block_id: self.blocks[self.index].block_id }
        } else {
            self.phase = Phase::AwaitAdvanced;
            SyncAction::AdvanceLastSynced { auth_id: self.user.auth_id.clone(), today: self.today }
        }
    }

    /// Hands the run what the last action brought, and gets the next action.
    pub fn resume(&mut self, event: SyncEvent) -> (action: SyncAction)
        ensures
            resumes(*old(self), event, *final(self), action),
    {
        if self.phase == Phase::Finished {
            return SyncAction::Nothing;
        }
        match event {
            SyncEvent::FetchFailed => self.fail(SyncError::ExternalService),
            SyncEvent::StorageFailed => self.fail(SyncError::Storage),
            SyncEvent::Skillblocks(blocks) => {
                if self.phase != Phase::AwaitSkillblocks {
                    return self.fail(SyncError::Unexpected);
                }
                if blocks.len() == 0 {
                    return self.fail(SyncError::NoSkillblocks);
                }
                let block_id = blocks[0].block_id;
                self.blocks = blocks;
                self.index = 0;
                self.phase = Phase::AwaitRecords;
                SyncAction::LoadRecords { block_id }
            },
            SyncEvent::Records(records) => {
                if self.phase != Phase::AwaitRecords || self.index >= self.blocks.len() {
                    return self.fail(SyncError::Unexpected);
                }
                let had_records = records.len() > 0;
                let windows = match plan_windows(
                    had_records,
                    self.user.blocks_last_fetched,
                    self.today,
                ) {
                    Some(windows) => windows,
                    None => {
                        return self.fail(SyncError::OutOfRange);
                    },
                };
                self.had_records = had_records;
                self.series = Series::from_records(&records);
                self.windows = windows;
                self.window_index = 0;
                self.upserts = Vec::new();
                self.cursor = 0;
                self.inserts = Vec::new();
                proof {
                    assert(begins_block(*old(self), records@, *self));
                }
                self.proceed()
            },
            SyncEvent::Rows(rows) => {
                if self.phase != Phase::AwaitRows || self.window_index >= self.windows.len() {
                    return self.fail(SyncError::Unexpected);
                }
                let window = self.windows[self.window_index];
                let fresh = match aggregate(&rows, &window) {
                    Some(fresh) => fresh,
                    None => {
                        return self.fail(SyncError::OutOfRange);
                    },
                };
                let plan = plan_writes(
                    &fresh,
                    &self.series,
                    self.had_records,
                    self.user.blocks_last_fetched,
                );
                self.series.overlay(&fresh);
                self.upserts = plan.upserts;
                self.cursor = 0;
                self.inserts = plan.inserts;
                self.window_index = self.window_index + 1;
                proof {
                    assert(takes_rows(*old(self), rows@, *self));
                }
                self.proceed()
            },
            SyncEvent::Updated(matched) => {
                if self.phase != Phase::AwaitUpdated || self.index >= self.blocks.len()
                    || self.cursor >= self.upserts.len() {
                    return self.fail(SyncError::Unexpected);
                }
                if matched == 0 {
                    let record = NewDateTime::of(
                        self.blocks[self.index].block_id,
                        self.upserts[self.cursor],
                    );
                    self.phase = Phase::AwaitInserted;
                    SyncAction::InsertRecord(record)
                } else {
                    self.cursor = self.cursor + 1;
                    self.proceed()
                }
            },
            SyncEvent::Inserted(_) => {
                if self.phase == Phase::AwaitInserted {
                    if self.cursor >= self.upserts.len() {
                        return self.fail(SyncError::Unexpected);
                    }
                    self.cursor = self.cursor + 1;
                    self.proceed()
                } else if self.phase == Phase::AwaitBatch {
                    self.inserts = Vec::new();
                    proof {
                        let mid = *self;
                        assert(mid.inserts@ == Seq::<DayTotal>::empty() && mid == (SyncRun {
                            inserts: mid.inserts,
                            ..*old(self)
                        }));
                    }
                    self.proceed()
                } else {
                    self.fail(SyncError::Unexpected)
                }
            },
            SyncEvent::Advanced => {
                if self.phase != Phase::AwaitAdvanced {
                    return self.fail(SyncError::Unexpected);
                }
                let mut data: Vec<TimeData> = Vec::new();
                core::mem::swap(&mut data, &mut self.data);
                self.phase = Phase::Finished;
                SyncAction::Respond(TimeWrapper { data })
            },
        }
    }
}

/// A user without a key is answered 404, and the run asks for nothing
/// afterwards, whatever it is handed: no fetch is ever made.
pub proof fn lemma_no_key_no_fetch(
    user: User,
    today: Day,
    run: SyncRun,
    action: SyncAction,
    event: SyncEvent,
    post: SyncRun,
    next: SyncAction,
)
    requires
        !user.key_present,
        starts(user, today, run, action),
        resumes(run, event, post, next),
    ensures
        action == SyncAction::Fail(SyncError::NoApiKey),
        SyncError::NoApiKey.spec_status() == Status::NotFound,
        next == SyncAction::Nothing,
        post == run,
{
}

/// A user who owns no skillblock is answered 404 before anything is fetched.
pub proof fn lemma_no_skillblocks_not_found(
    pre: SyncRun,
    blocks: Vec<Skillblock>,
    post: SyncRun,
    action: SyncAction,
)
    requires
        pre.phase == Phase::AwaitSkillblocks,
        blocks@.len() == 0,
        resumes(pre, SyncEvent::Skillblocks(blocks), post, action),
    ensures
        action == SyncAction::Fail(SyncError::NoSkillblocks),
        SyncError::NoSkillblocks.spec_status() == Status::NotFound,
        post.phase == Phase::Finished,
{
}

/// A run that has ended stays ended and asks for nothing.
pub proof fn lemma_finished_is_final(
    pre: SyncRun,
    event: SyncEvent,
    post: SyncRun,
    action: SyncAction,
)
    requires
        pre.phase == Phase::Finished,
        resumes(pre, event, post, action),
    ensures
        post == pre,
        action == SyncAction::Nothing,
{
}

/// A failed fetch or a failed read or write ends the run with an error:
/// nothing more is fetched or written, and the last synchronised day is not
/// advanced.
pub proof fn lemma_failure_ends_run(
    pre: SyncRun,
    event: SyncEvent,
    post: SyncRun,
    action: SyncAction,
)
    requires
        pre.phase != Phase::Finished,
        event is FetchFailed || event is StorageFailed,
        resumes(pre, event, post, action),
    ensures
        post.phase == Phase::Finished,
        action == SyncAction::Fail(
            if event is FetchFailed {
                SyncError::ExternalService
            } else {
                SyncError::Storage
            },
        ),
        action->Fail_0.spec_status() == Status::InternalServerError,
{
}

/// The rows of a fetch are laid over the series of the skillblock in work:
/// each day of the window that has rows takes the sum of its rows, every
/// other day keeps what the series held.
pub proof fn lemma_rows_are_laid_over_the_series(
    pre: SyncRun,
    rows: Vec<Row>,
    post: SyncRun,
    action: SyncAction,
)
    requires
        pre.phase == Phase::AwaitRows,
        pre.window_index < pre.windows@.len(),
        totals_fit(rows@, pre.windows@[pre.window_index as int]),
        resumes(pre, SyncEvent::Rows(rows), post, action),
    ensures
        !(action is Fail) ==> post.series@ == pre.series@.union_prefer_right(
            totals(rows@, pre.windows@[pre.window_index as int]),
        ),
        action is Fail ==> post.phase == Phase::Finished,
{
}

/// Whether `data` holds one series for each of the first `done` skillblocks,
/// in their order and under their names.
pub open spec fn covers(data: Seq<TimeData>, blocks: Seq<Skillblock>, done: int) -> bool {
    &&& data.len() == done
    &&& done <= blocks.len()
    &&& forall|i: int|
        0 <= i < done ==> (#[trigger] data[i]).category == blocks[i].category && data[i].skill_name
            == blocks[i].skill_name && data[i].skill_description == blocks[i].description
}

/// What holds of every run that `get_skillblocks` started, at every step:
/// the skillblocks before the one in work are done, each with its series,
/// and all of them once the last synchronised day is to be advanced.
pub open spec fn consistent(run: SyncRun) -> bool {
    match run.phase {
        Phase::Finished => true,
        Phase::AwaitSkillblocks => run.data@.len() == 0 && run.index == 0,
        Phase::AwaitAdvanced => run.index == run.blocks@.len() && covers(
            run.data@,
            run.blocks@,
            run.index as int,
        ),
        _ => run.index < run.blocks@.len() && covers(run.data@, run.blocks@, run.index as int),
    }
}

/// `proceeds` keeps a run consistent.
proof fn lemma_proceeds_consistent(mid: SyncRun, post: SyncRun, action: SyncAction)
    requires
        mid.index < mid.blocks@.len(),
        covers(mid.data@, mid.blocks@, mid.index as int),
        proceeds(mid, post, action),
    ensures
        consistent(post),
        !(action is Respond),
{
    if mid.cursor < mid.upserts@.len() {
    } else if mid.inserts@.len() > 0 {
    } else if mid.window_index < mid.windows@.len() {
    } else {
        assert forall|i: int| 0 <= i < post.index implies (#[trigger] post.data@[i]).category
            == post.blocks@[i].category && post.data@[i].skill_name == post.blocks@[i].skill_name
            && post.data@[i].skill_description == post.blocks@[i].description by {
            if i < mid.index {
                assert(post.data@.drop_last()[i] == mid.data@[i]);
            } else {
                assert(post.data@[i] == post.data@.last());
            }
        }
    }
}

/// Every step keeps a run consistent: a run started by `get_skillblocks`
/// is consistent, and stays so whatever it is handed.
pub proof fn lemma_run_stays_consistent(
    pre: SyncRun,
    event: SyncEvent,
    post: SyncRun,
    action: SyncAction,
)
    requires
        consistent(pre),
        resumes(pre, event, post, action),
    ensures
        consistent(post),
{
    if pre.phase == Phase::Finished || event is FetchFailed || event is StorageFailed {
    } else {
        match (pre.phase, event) {
            (Phase::AwaitRecords, SyncEvent::Records(records)) => {
                if !(records@.len() == 0 && pre.today@ - (LOOKBACK_DAYS - 1) < i32::MIN) {
                    let mid = choose|mid: SyncRun| #[trigger]
                        begins_block(pre, records@, mid) && proceeds(mid, post, action);
                    lemma_proceeds_consistent(mid, post, action);
                }
            },
            (Phase::AwaitRows, SyncEvent::Rows(rows)) => {
                if pre.window_index < pre.windows@.len() && totals_fit(
                    rows@,
                    pre.windows@[pre.window_index as int],
                ) {
                    let mid = choose|mid: SyncRun| #[trigger]
                        takes_rows(pre, rows@, mid) && proceeds(mid, post, action);
                    lemma_proceeds_consistent(mid, post, action);
                }
            },
            (Phase::AwaitUpdated, SyncEvent::Updated(matched)) => {
                if pre.cursor < pre.upserts@.len() && matched != 0 {
                    lemma_proceeds_consistent(
                        SyncRun { cursor: (pre.cursor + 1) as usize, ..pre },
                        post,
                        action,
                    );
                }
            },
            (Phase::AwaitInserted, SyncEvent::Inserted(_)) => {
                if pre.cursor < pre.upserts@.len() {
                    lemma_proceeds_consistent(
                        SyncRun { cursor: (pre.cursor + 1) as usize, ..pre },
                        post,
                        action,
                    );
                }
            },
            (Phase::AwaitBatch, SyncEvent::Inserted(_)) => {
                let mid = choose|mid: SyncRun|
                    mid.inserts@ == Seq::<DayTotal>::empty() && mid == (SyncRun {
                        inserts: mid.inserts,
                        ..pre
                    }) && #[trigger] proceeds(mid, post, action);
                lemma_proceeds_consistent(mid, post, action);
            },
            _ => {},
        }
    }
}

/// The response is never truncated: a consistent run that answers with the
/// time series answers with one series for every skillblock of the user,
/// in their order and under their names.
pub proof fn lemma_response_covers_every_skillblock(
    pre: SyncRun,
    event: SyncEvent,
    post: SyncRun,
    action: SyncAction,
)
    requires
        consistent(pre),
        resumes(pre, event, post, action),
        action is Respond,
    ensures
        covers(action->Respond_0.data@, pre.blocks@, pre.blocks@.len() as int),
{
}

/// Whether the phase is one of the work on a skillblock after its stored
/// records were read.
pub open spec fn in_block(phase: Phase) -> bool {
    phase == Phase::AwaitRows || phase == Phase::AwaitUpdated || phase == Phase::AwaitInserted
        || phase == Phase::AwaitBatch
}

/// Whether the run has followed the synchronisation of the skillblock in
/// work so far: `records` were its stored records, `fetched` are the rows
/// taken for its windows up to now, in order, and the series of the run is
/// what `synced_series` makes of them.
pub open spec fn follows(run: SyncRun, records: Seq<DayTotal>, fetched: Seq<Seq<Row>>) -> bool {
    &&& run.had_records == (records.len() > 0)
    &&& run.windows@ == sync_windows(run.had_records, run.user.blocks_last_fetched, run.today)
    &&& run.window_index <= run.windows@.len()
    &&& fetched.len() == run.window_index
    &&& run.series@ == synced_series(
        records_map(records),
        run.windows@.take(run.window_index as int),
        fetched,
    )
}

/// The series handed out for the skillblock that the step from `pre` to
/// `post` has completed is what `synced_series` makes of its stored
/// `records` and of the rows `fetched` for all of its windows.
pub open spec fn completes_block(
    pre: SyncRun,
    post: SyncRun,
    records: Seq<DayTotal>,
    fetched: Seq<Seq<Row>>,
) -> bool {
    &&& post.index == pre.index + 1
    &&& post.data@.len() == pre.data@.len() + 1
    &&& fetched.len() == sync_windows(
        records.len() > 0,
        pre.user.blocks_last_fetched,
        pre.today,
    ).len()
    &&& post.data@.last().time_data@ == synced_series(
        records_map(records),
        sync_windows(records.len() > 0, pre.user.blocks_last_fetched, pre.today),
        fetched,
    )
}

/// `proceeds` keeps following the skillblock in work, or completes it.
proof fn lemma_proceeds_follows(
    mid: SyncRun,
    post: SyncRun,
    action: SyncAction,
    records: Seq<DayTotal>,
    fetched: Seq<Seq<Row>>,
)
    requires
        mid.index < mid.blocks@.len(),
        follows(mid, records, fetched),
        proceeds(mid, post, action),
        !(action is Fail),
    ensures
        post.index == mid.index ==> follows(post, records, fetched) && in_block(post.phase),
        post.index != mid.index ==> completes_block(mid, post, records, fetched),
        post.user == mid.user,
        post.today == mid.today,
        post.blocks == mid.blocks,
{
    if mid.cursor < mid.upserts@.len() {
    } else if mid.inserts@.len() > 0 {
    } else if mid.window_index < mid.windows@.len() {
    } else {
        assert(mid.windows@.take(mid.window_index as int) =~= mid.windows@);
    }
}

/// Reading the stored records of a skillblock starts following it: the
/// series of the run is the one the records stand for, and the first window
/// is asked for.
pub proof fn lemma_run_follows_from_records(
    pre: SyncRun,
    records: Vec<DayTotal>,
    post: SyncRun,
    action: SyncAction,
)
    requires
        consistent(pre),
        pre.phase == Phase::AwaitRecords,
        resumes(pre, SyncEvent::Records(records), post, action),
        !(action is Fail),
    ensures
        follows(post, records@, Seq::<Seq<Row>>::empty()),
        post.phase == Phase::AwaitRows,
        action is Fetch,
        action->Fetch_0.window == sync_windows(
            records@.len() > 0,
            pre.user.blocks_last_fetched,
            pre.today,
        )[0],
        post.index == pre.index,
        post.user == pre.user,
        post.today == pre.today,
        post.blocks == pre.blocks,
        post.data == pre.data,
{
    let mid = choose|mid: SyncRun| #[trigger]
        begins_block(pre, records@, mid) && proceeds(mid, post, action);
    assert(mid.windows@.take(0) =~= Seq::<Window>::empty());
    assert(mid.windows@.len() >= 1);
}

/// Every step of the work on a skillblock keeps following it, and the step
/// that completes it hands out the series that `synced_series` makes of
/// its stored records and of all the rows fetched for it. What is proved of
/// `synced_series` therefore holds of the series in the response.
pub proof fn lemma_run_follows_block(
    pre: SyncRun,
    event: SyncEvent,
    post: SyncRun,
    action: SyncAction,
    records: Seq<DayTotal>,
    fetched: Seq<Seq<Row>>,
)
    requires
        consistent(pre),
        in_block(pre.phase),
        follows(pre, records, fetched),
        resumes(pre, event, post, action),
        !(action is Fail),
    ensures
        ({
            let taken = match event {
                SyncEvent::Rows(rows) => fetched.push(rows@),
                _ => fetched,
            };
            &&& post.index == pre.index ==> follows(post, records, taken) && in_block(post.phase)
            &&& post.index != pre.index ==> completes_block(pre, post, records, taken)
            &&& post.user == pre.user
            &&& post.today == pre.today
            &&& post.blocks == pre.blocks
        }),
{
    match (pre.phase, event) {
        (Phase::AwaitRows, SyncEvent::Rows(rows)) => {
            let mid = choose|mid: SyncRun| #[trigger]
                takes_rows(pre, rows@, mid) && proceeds(mid, post, action);
            let done = pre.window_index as int;
            let taken = fetched.push(rows@);
            assert(pre.windows@.take(done + 1).drop_last() =~= pre.windows@.take(done));
            assert(taken.drop_last() =~= fetched);
            assert(pre.windows@.take(done + 1).last() == pre.windows@[done]);
            assert(follows(mid, records, taken));
            lemma_proceeds_follows(mid, post, action, records, taken);
        },
        (Phase::AwaitUpdated, SyncEvent::Updated(matched)) => {
            if matched != 0 {
                lemma_proceeds_follows(
                    SyncRun { cursor: (pre.cursor + 1) as usize, ..pre },
                    post,
                    action,
                    records,
                    fetched,
                );
            }
        },
        (Phase::AwaitInserted, SyncEvent::Inserted(_)) => {
            lemma_proceeds_follows(
                SyncRun { cursor: (pre.cursor + 1) as usize, ..pre },
                post,
                action,
                records,
                fetched,
            );
        },
        (Phase::AwaitBatch, SyncEvent::Inserted(_)) => {
            let mid = choose|mid: SyncRun|
                mid.inserts@ == Seq::<DayTotal>::empty() && mid == (SyncRun {
                    inserts: mid.inserts,
                    ..pre
                }) && #[trigger] proceeds(mid, post, action);
            lemma_proceeds_follows(mid, post, action, records, fetched);
        },
        _ => {},
    }
}

/// No data is lost when a run fills in the days since the last
/// synchronisation: in the series handed out for a skillblock that had
/// records, every stored day stays; a day before the last synchronised one
/// keeps its seconds whatever the source returned; the last synchronised
/// day takes the sum of its rows where the source has some; and each later
/// day up to today that the source has rows for comes in with their sum.
pub proof fn lemma_completed_gap_fill_keeps_history(
    pre: SyncRun,
    post: SyncRun,
    records: Seq<DayTotal>,
    fetched: Seq<Seq<Row>>,
)
    requires
        completes_block(pre, post, records, fetched),
        records.len() > 0,
        pre.user.blocks_last_fetched@ < pre.today@,
    ensures
        fetched.len() == 2,
        ({
            let stored = records_map(records);
            let last = pre.user.blocks_last_fetched@;
            let series = post.data@.last().time_data@;
            &&& forall|d: int| stored.contains_key(d) ==> series.contains_key(d)
            &&& forall|d: int|
                stored.contains_key(d) && (d < last || d > pre.today@) ==> series[d] == stored[d]
            &&& has_row(fetched[0], last) ==> series.contains_key(last) && series[last] == day_sum(
                fetched[0],
                last,
            )
            &&& !has_row(fetched[0], last) && stored.contains_key(last) ==> series[last]
                == stored[last]
            &&& forall|d: int|
                last < d <= pre.today@ && has_row(fetched[1], d) ==> series.contains_key(d)
                    && series[d] == day_sum(fetched[1], d)
            &&& forall|d: int|
                last < d <= pre.today@ && !has_row(fetched[1], d) && stored.contains_key(d)
                    ==> series[d] == stored[d]
        }),
{
    lemma_gap_fill_keeps_history(
        records_map(records),
        pre.user.blocks_last_fetched,
        pre.today,
        fetched,
    );
}

/// A run on a day that was already synchronised changes nothing but today:
/// in the series handed out for a skillblock that had records, every day
/// but today is as the stored records had it, and no day but today comes
/// in.
pub proof fn lemma_completed_resync_changes_today_alone(
    pre: SyncRun,
    post: SyncRun,
    records: Seq<DayTotal>,
    fetched: Seq<Seq<Row>>,
)
    requires
        completes_block(pre, post, records, fetched),
        records.len() > 0,
        pre.user.blocks_last_fetched == pre.today,
    ensures
        fetched.len() == 1,
        ({
            let stored = records_map(records);
            let series = post.data@.last().time_data@;
            &&& forall|d: int| d != pre.today@ ==> series.contains_key(d) == stored.contains_key(d)
            &&& forall|d: int| d != pre.today@ && stored.contains_key(d) ==> series[d] == stored[d]
        }),
{
    assert(records_map(records).contains_key(records.last().day@));
    lemma_resync_changes_today_alone(records_map(records), pre.today, fetched);
}

/// Each fetched day is written once: where the stored rows of the
/// skillblock hold one row per day and stand for the series of the run,
/// they still do after the updates and the inserts that the run asks for
/// on taking the rows of a fetch. The updates are those of `post.upserts`,
/// each followed by an insert where it matched nothing, and the batch is
/// that of `post.inserts`.
pub proof fn lemma_rows_are_written_once(
    pre: SyncRun,
    rows: Vec<Row>,
    post: SyncRun,
    action: SyncAction,
    store: Seq<DayTotal>,
)
    requires
        pre.phase == Phase::AwaitRows,
        resumes(pre, SyncEvent::Rows(rows), post, action),
        !(action is Fail),
        distinct_days(store),
        records_map(store) == pre.series@,
    ensures
        distinct_days(store_after(store, post.upserts@, post.inserts@)),
        records_map(store_after(store, post.upserts@, post.inserts@)) == post.series@,
        forall|d: int|
            pre.series@.contains_key(d) && !totals(
                rows@,
                pre.windows@[pre.window_index as int],
            ).contains_key(d) ==> post.series@[d] == pre.series@[d] && !records_map(
                post.upserts@,
            ).contains_key(d) && !records_map(post.inserts@).contains_key(d),
{
    let mid = choose|mid: SyncRun| #[trigger]
        takes_rows(pre, rows@, mid) && proceeds(mid, post, action);
    let fresh = totals(rows@, pre.windows@[pre.window_index as int]);
    assert(post.upserts == mid.upserts && post.inserts == mid.inserts && post.series == mid.series);
    lemma_writes_keep_one_record_per_day(
        store,
        fresh,
        mid.upserts@,
        mid.inserts@,
        pre.had_records,
        pre.user.blocks_last_fetched@,
    );
}

/// A run on a day that was already synchronised writes today alone: for a
/// skillblock that had records it fetches the one window of today, inserts
/// nothing in a batch, and updates no day but today.
pub proof fn lemma_resync_writes_today_alone(
    pre: SyncRun,
    rows: Vec<Row>,
    post: SyncRun,
    action: SyncAction,
    records: Seq<DayTotal>,
    fetched: Seq<Seq<Row>>,
)
    requires
        pre.phase == Phase::AwaitRows,
        follows(pre, records, fetched),
        records.len() > 0,
        pre.user.blocks_last_fetched == pre.today,
        resumes(pre, SyncEvent::Rows(rows), post, action),
        !(action is Fail),
    ensures
        pre.windows@ == seq![Window { begin: pre.today, end: pre.today }],
        post.inserts@.len() == 0,
        forall|d: int| records_map(post.upserts@).contains_key(d) ==> d == pre.today@,
        forall|i: int| 0 <= i < post.upserts@.len() ==> (#[trigger] post.upserts@[i]).day == pre.today,
{
    let mid = choose|mid: SyncRun| #[trigger]
        takes_rows(pre, rows@, mid) && proceeds(mid, post, action);
    assert(post.upserts == mid.upserts && post.inserts == mid.inserts);
    assert(pre.windows@ =~= seq![Window { begin: pre.today, end: pre.today }]);
    assert(pre.window_index == 0);
    if post.inserts@.len() > 0 {
        let d = post.inserts@.last().day@;
        assert(records_map(post.inserts@).contains_key(d));
    }
    assert forall|i: int| 0 <= i < post.upserts@.len() implies (#[trigger] post.upserts@[i]).day
        == pre.today by {
        lemma_records_map_at(post.upserts@, i);
    }
}

/// A window whose ends lie in the years 1 to 9999 is always asked for:
/// when the next thing due is a fetch and the user has a key, the run does
/// not end for want of a date.
pub proof fn lemma_ordinary_window_is_fetched(mid: SyncRun, post: SyncRun, action: SyncAction)
    requires
        mid.index < mid.blocks@.len(),
        mid.cursor >= mid.upserts@.len(),
        mid.inserts@.len() == 0,
        mid.window_index < mid.windows@.len(),
        has_key(mid.user),
        ordinary(mid.windows@[mid.window_index as int]),
        proceeds(mid, post, action),
    ensures
        action is Fetch,
        action->Fetch_0.window == mid.windows@[mid.window_index as int],
        post.phase == Phase::AwaitRows,
{
}

/// The last synchronised day is advanced only when the last skillblock is
/// done and every write before it was answered, and the response follows
/// only the advance.
pub proof fn lemma_advance_follows_last_skillblock(
    pre: SyncRun,
    event: SyncEvent,
    post: SyncRun,
    action: SyncAction,
)
    requires
        resumes(pre, event, post, action),
    ensures
        action is AdvanceLastSynced ==> {
            &&& !(event is FetchFailed) && !(event is StorageFailed)
            &&& post.phase == Phase::AwaitAdvanced
            &&& post.index == post.blocks@.len()
            &&& post.data@.len() == pre.data@.len() + 1
            &&& action->AdvanceLastSynced_auth_id == pre.user.auth_id
            &&& action->AdvanceLastSynced_today == pre.today
        },
        action is Respond ==> pre.phase == Phase::AwaitAdvanced && event is Advanced
            && action->Respond_0.data == pre.data,
{
}

/// How many skillblocks a user may own before no more can be added.
pub const BLOCK_LIMIT: i32 = 3;

/// What creating a skillblock comes to.
#[derive(Debug)]
pub struct SkillblockCreation {
    /// The key for the analytics source to store for the user first, where
    /// the user had none.
    pub api_key: Option<String>,
    /// The skillblock to insert.
    pub skillblock: NewSkillblock,
    /// The user's new number of skillblocks.
    pub block_count: i32,
    /// Where the user agent is sent on success.
    pub location: String,
}

/// The writes that create a skillblock, in order.
#[derive(Clone, Copy, Debug, PartialEq, Eq, Structural)]
pub enum CreationStep {
    StoreKey,
    InsertSkillblock,
    UpdateBlockCount,
}

/// Whether the request to create a skillblock is refused: the user is over
/// the limit, or has no key on file and submits none.
pub open spec fn creation_refused(user: User, form: FormData) -> bool {
    user.block_count > BLOCK_LIMIT || (!user.key_present && form.api_key.is_none())
}

/// Whether `creation` is what `form` asks for on behalf of `user`.
pub open spec fn creates(creation: SkillblockCreation, user: User, form: FormData) -> bool {
    &&& creation.api_key == if user.key_present {
        None::<String>
    } else {
        form.api_key
    }
    &&& creation.skillblock.user_id == Some(user.user_id)
    &&& creation.skillblock.category == form.category
    &&& creation.skillblock.offline_category == form.offline_category
    &&& creation.skillblock.skill_description == form.description
    &&& creation.skillblock.skill_name == form.skill_name
    &&& creation.block_count == user.block_count + 1
    &&& creation.location@ == "http://localhost:8080/user"@
}

/// Decides a request to create a skillblock: refused with 403, or the
/// writes to make before the user agent is redirected.
pub fn new_skillblock(user: &User, form: &FormData) -> (r: Result<SkillblockCreation, Status>)
    ensures
        match r {
            Ok(creation) => !creation_refused(*user, *form) && creates(creation, *user, *form),
            Err(status) => creation_refused(*user, *form) && status == Status::Forbidden,
        },
{
    if user.block_count > BLOCK_LIMIT {
        return Err(Status::Forbidden);
    }
    let api_key = if user.key_present {
        None
    } else {
        match &form.api_key {
            Some(key) => Some(key.clone()),
            None => {
                return Err(Status::Forbidden);
            },
        }
    };
    Ok(
        SkillblockCreation {
            api_key,
            skillblock: NewSkillblock {
                user_id: Some(user.user_id),
                category: form.category.clone(),
                offline_category: form.offline_category,
                skill_name: form.skill_name.clone(),
                skill_description: form.description.clone(),
            },
            block_count: user.block_count + 1,
            location: String::from_str("http://localhost:8080/user"),
        },
    )
}

/// What the request is answered with when a write of the creation fails:
/// a key that cannot be stored refuses the request, a skillblock that
/// cannot be inserted is a server error, and a count that cannot be updated
/// does not stop the redirect.
pub fn creation_failure(step: CreationStep) -> (r: Option<Status>)
    ensures
        r == match step {
            CreationStep::StoreKey => Some(Status::Forbidden),
            CreationStep::InsertSkillblock => Some(Status::InternalServerError),
            CreationStep::UpdateBlockCount => None::<Status>,
        },
{
    match step {
        CreationStep::StoreKey => Some(Status::Forbidden),
        CreationStep::InsertSkillblock => Some(Status::InternalServerError),
        CreationStep::UpdateBlockCount => None,
    }
}

impl SkillblockCreation {
    /// A created skillblock is answered with a redirect.
    pub fn status(&self) -> (s: Status)
        ensures
            s == Status::SeeOther,
    {
        Status::SeeOther
    }
}

impl SyncAction {
    /// The status of the answer, where the action answers the request.
    pub open spec fn spec_response_status(self) -> Option<Status> {
        match self {
            SyncAction::Respond(_) => Some(Status::Success),
            SyncAction::Fail(error) => Some(error.spec_status()),
            _ => None,
        }
    }

    /// The status of the answer, where the action answers the request: 200
    /// with the time series, the error's status for a failure.
    pub fn response_status(&self) -> (r: Option<Status>)
        ensures
            r == self.spec_response_status(),
    {
        match self {
            SyncAction::Respond(_) => Some(Status::Success),
            SyncAction::Fail(error) => Some(error.status()),
            _ => None,
        }
    }
}

/// A request for the time series without an authenticated user is sent to
/// the public landing page, with a message.
pub fn get_skillblocks_redirect() -> (r: (Redirect, FlashMessage))
    ensures
        r.0.location@ == "/"@,
        r.1.name@ == "error"@,
        r.1.msg@ == "Invalid user login"@,
{
    (
        Redirect { location: String::from_str("/") },
        FlashMessage {
            name: String::from_str("error"),
            msg: String::from_str("Invalid user login"),
        },
    )
}

/// A request without an authenticated user is answered 401.
pub fn new_skillblock_redirect() -> (s: Status)
    ensures
        s == Status::Unauthorized,
{
    Status::Unauthorized
}

} // verus!
