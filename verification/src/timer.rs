//! The timer registry and the per-timer state machine.
//!
//! `TimerState` owns a collection of timer records keyed by a caller-chosen
//! string id. Each record moves among four states — idle, running, paused,
//! completed — under the operations `create`, `start`, `pause`, `resume`,
//! `reset` and `delete`, and under `tick`, the decision a periodic driver
//! takes once per tick for a running timer. Every operation that changes a
//! record also describes the progress or completion notification the caller
//! should deliver; the engine itself never performs the delivery.
//!
//! Time enters every operation as an explicit monotonic reading `now_ms`
//! (milliseconds); remaining time is always derived from the record's
//! absolute deadline, never accumulated tick by tick.

use vstd::prelude::*;

use crate::clock::{now_stamp, remaining_at, remaining_ms_at, sat_add, sat_add_i64};

verus! {

/// Relies on str's PartialEq: two string slices are equal exactly when
/// their characters are equal.
pub assume_specification[ <str as PartialEq>::eq ](s: &str, other: &str) -> (res: bool)
    ensures
        res == (s@ == other@),
;

/// A timer's data as shown to callers: a snapshot copied out of the
/// registry, never a live reference into it.
#[derive(Clone, Debug)]
pub struct Timer {
    pub id: String,
    pub name: String,
    pub duration_ms: i64,
    pub remaining_ms: i64,
    pub running: bool,
    pub completed: bool,
    pub created_at: String,
}

/// The two failures the registry can report: both are local and recoverable,
/// and neither disturbs any other timer.
#[derive(Clone, Copy, Debug, PartialEq, Eq)]
pub enum TimerError {
    /// `create` was given an id that is already present.
    DuplicateId,
    /// An operation referenced an id that is not present.
    NotFound,
}

impl TimerError {
    /// The human-readable description of this failure.
    pub open spec fn message_spec(self) -> Seq<char> {
        match self {
            TimerError::DuplicateId => "Timer with this ID already exists"@,
            TimerError::NotFound => "Timer not found"@,
        }
    }

    /// The human-readable description of this failure.
    pub fn message(&self) -> (r: String)
        ensures
            r@ == self.message_spec(),
    {
        match self {
            TimerError::DuplicateId => "Timer with this ID already exists".to_owned(),
            TimerError::NotFound => "Timer not found".to_owned(),
        }
    }
}

/// A progress notification: emitted immediately on start/pause/resume/reset
/// and once per tick while running.
#[derive(Clone, Debug)]
pub struct TickPayload {
    pub timer_id: String,
    pub remaining_ms: i64,
    pub duration_ms: i64,
    pub running: bool,
}

/// A completion notification: emitted exactly once when a countdown reaches
/// zero naturally, never on cancellation.
#[derive(Clone, Debug)]
pub struct DonePayload {
    pub timer_id: String,
    pub finished_at: String,
}

/// What one tick of a timer's periodic driver decided.
#[derive(Debug)]
pub enum TickOutcome {
    /// No record carries the id any more: the driver stops and emits
    /// nothing.
    Gone,
    /// Time remains: the record was updated; deliver the progress
    /// notification and keep ticking.
    Progress(TickPayload),
    /// The countdown reached zero: the record is completed; deliver the
    /// progress notification, then the completion notification, and stop.
    Finished(TickPayload, DonePayload),
}

/// One timer's record as the registry stores it.
pub struct TimerInstance {
    pub id: String,
    pub name: String,
    pub duration_ms: i64,
    pub remaining_ms: i64,
    /// The absolute deadline (monotonic milliseconds); present exactly
    /// while the timer is running.
    pub target_at: Option<i64>,
    pub running: bool,
    pub completed: bool,
    pub created_at: String,
}

/// The internal invariant of one record: a deadline is held exactly while
/// running, and a completed timer is stopped with nothing remaining.
pub open spec fn record_inv(t: TimerInstance) -> bool {
    &&& t.target_at is Some <==> t.running
    &&& t.completed ==> t.remaining_ms == 0 && !t.running
}

/// Ids are pairwise distinct.
pub open spec fn ids_unique(s: Seq<TimerInstance>) -> bool {
    forall|i: int, j: int| 0 <= i < j < s.len() ==> s[i].id@ != s[j].id@
}

/// Some record in `s` carries the id.
pub open spec fn has_id(s: Seq<TimerInstance>, id: Seq<char>) -> bool {
    exists|i: int| 0 <= i < s.len() && #[trigger] s[i].id@ == id
}

/// The position of the record carrying the id (meaningful when `has_id`
/// holds and ids are unique).
pub open spec fn index_of_id(s: Seq<TimerInstance>, id: Seq<char>) -> int {
    choose|i: int| 0 <= i < s.len() && #[trigger] s[i].id@ == id
}

/// The registry as a whole is well formed: unique ids, every record
/// internally consistent.
pub open spec fn wf(s: Seq<TimerInstance>) -> bool {
    &&& ids_unique(s)
    &&& forall|i: int| 0 <= i < s.len() ==> record_inv(#[trigger] s[i])
}

/// With unique ids, a record found at `i` pins down `index_of_id`.
pub proof fn lemma_index_of_id_is(s: Seq<TimerInstance>, id: Seq<char>, i: int)
    requires
        ids_unique(s),
        0 <= i < s.len(),
        s[i].id@ == id,
    ensures
        has_id(s, id),
        index_of_id(s, id) == i,
{
    assert(has_id(s, id));
    let j = index_of_id(s, id);
    assert(0 <= j < s.len() && s[j].id@ == id);
    if i < j {
        assert(s[i].id@ != s[j].id@);
    } else if j < i {
        assert(s[j].id@ != s[i].id@);
    }
}

/// Removing one record keeps the registry well formed, and removing the
/// record that carries an id leaves no record with that id.
proof fn lemma_remove_keeps_wf(s: Seq<TimerInstance>, i: int)
    requires
        wf(s),
        0 <= i < s.len(),
    ensures
        wf(s.remove(i)),
        !has_id(s.remove(i), s[i].id@),
{
    s.remove_ensures(i);
    let t = s.remove(i);
    assert forall|p: int, q: int| 0 <= p < q < t.len() implies t[p].id@ != t[q].id@ by {
        if q < i {
        } else if p < i {
            assert(t[q] == s[q + 1]);
        } else {
            assert(t[p] == s[p + 1]);
            assert(t[q] == s[q + 1]);
        }
    }
    assert forall|p: int| 0 <= p < t.len() implies record_inv(#[trigger] t[p]) && t[p].id@
        != s[i].id@ by {
        if p < i {
            assert(t[p] == s[p]);
        } else {
            assert(t[p] == s[p + 1]);
        }
    }
}

/// `snap` faithfully copies the caller-visible fields of `rec`.
pub open spec fn snapshot_of(snap: Timer, rec: TimerInstance) -> bool {
    &&& snap.id@ == rec.id@
    &&& snap.name@ == rec.name@
    &&& snap.duration_ms == rec.duration_ms
    &&& snap.remaining_ms == rec.remaining_ms
    &&& snap.running == rec.running
    &&& snap.completed == rec.completed
    &&& snap.created_at@ == rec.created_at@
}

/// `p` is the progress notification that reflects `rec`.
pub open spec fn payload_of(p: TickPayload, rec: TimerInstance) -> bool {
    &&& p.timer_id@ == rec.id@
    &&& p.remaining_ms == rec.remaining_ms
    &&& p.duration_ms == rec.duration_ms
    &&& p.running == rec.running
}

/// A record as `create` makes it: idle, full time remaining, stamped.
pub open spec fn fresh_record(t: TimerInstance, id: Seq<char>, name: Seq<char>, duration_ms: i64) -> bool {
    &&& t.id@ == id
    &&& t.name@ == name
    &&& t.duration_ms == duration_ms
    &&& t.remaining_ms == duration_ms
    &&& t.target_at is None
    &&& !t.running
    &&& !t.completed
    &&& t.created_at@.len() > 0
}

/// The identity and configuration of a record: everything an operation on
/// a live timer leaves untouched.
pub open spec fn same_identity(new: TimerInstance, prev: TimerInstance) -> bool {
    &&& new.id@ == prev.id@
    &&& new.name@ == prev.name@
    &&& new.duration_ms == prev.duration_ms
    &&& new.created_at@ == prev.created_at@
}

/// `new` is `prev` set running toward the deadline `now + remaining`:
/// the remaining time itself is carried over unchanged.
pub open spec fn started_record(new: TimerInstance, prev: TimerInstance, now: i64) -> bool {
    &&& same_identity(new, prev)
    &&& new.remaining_ms == prev.remaining_ms
    &&& new.target_at is Some
    &&& new.target_at->0 as int == sat_add(now as int, prev.remaining_ms as int)
    &&& new.running
    &&& !new.completed
}

/// `new` is `prev` frozen at time `now`: the remaining time is read off the
/// deadline one final time, and the deadline is dropped.
pub open spec fn paused_record(new: TimerInstance, prev: TimerInstance, now: i64) -> bool {
    &&& same_identity(new, prev)
    &&& new.remaining_ms as int == remaining_at(prev.target_at->0 as int, now as int)
    &&& new.target_at is None
    &&& !new.running
    &&& new.completed == prev.completed
}

/// `new` is `prev` restored to its configured duration, idle.
pub open spec fn reset_record(new: TimerInstance, prev: TimerInstance) -> bool {
    &&& same_identity(new, prev)
    &&& new.remaining_ms == prev.duration_ms
    &&& new.target_at is None
    &&& !new.running
    &&& !new.completed
}

/// The remaining time a tick reads off the record at time `now`: derived
/// from the absolute deadline, never from the stored counter; a record
/// without a deadline counts as due.
pub open spec fn tick_remaining(t: TimerInstance, now: i64) -> int {
    if t.target_at is Some {
        remaining_at(t.target_at->0 as int, now as int)
    } else {
        0
    }
}

/// `new` is `prev` after a tick that found time remaining: only the stored
/// remaining time moves.
pub open spec fn ticked_record(new: TimerInstance, prev: TimerInstance, now: i64) -> bool {
    &&& same_identity(new, prev)
    &&& new.remaining_ms as int == tick_remaining(prev, now)
    &&& new.target_at == prev.target_at
    &&& new.running == prev.running
    &&& new.completed == prev.completed
}

/// `new` is `prev` after its countdown reached zero: stopped, completed,
/// nothing remaining.
pub open spec fn completed_record(new: TimerInstance, prev: TimerInstance) -> bool {
    &&& same_identity(new, prev)
    &&& new.remaining_ms == 0
    &&& new.target_at is None
    &&& !new.running
    &&& new.completed
}

/// While a record's deadline stands, the remaining time a tick reads never
/// increases as the clock advances: between two readings the countdown can
/// only fall (and it is frozen by `pause`, which drops the deadline and
/// stops every further write of the stored value).
pub proof fn lemma_running_remaining_monotonic(rec: TimerInstance, now1: i64, now2: i64)
    requires
        now1 <= now2,
    ensures
        tick_remaining(rec, now2) <= tick_remaining(rec, now1),
{
    if rec.target_at is Some {
        crate::clock::lemma_remaining_monotonic(rec.target_at->0, now1, now2);
    }
}

/// A timer started (or resumed) with no time left — zero or negative
/// remaining — gets a deadline that is already due, so its very first tick,
/// whenever it comes, reads zero remaining and completes the timer.
pub proof fn lemma_start_with_nothing_left_is_due(
    started: TimerInstance,
    prev: TimerInstance,
    start_now: i64,
    tick_now: i64,
)
    requires
        started_record(started, prev, start_now),
        prev.remaining_ms <= 0,
        start_now <= tick_now,
    ensures
        tick_remaining(started, tick_now) == 0,
{
    crate::clock::lemma_nonpositive_remaining_is_due(prev.remaining_ms, start_now, tick_now);
}

/// Replacing one record with a consistent record of the same id keeps the
/// registry well formed.
proof fn lemma_update_keeps_wf(s: Seq<TimerInstance>, i: int, v: TimerInstance)
    requires
        wf(s),
        0 <= i < s.len(),
        v.id@ == s[i].id@,
        record_inv(v),
    ensures
        wf(s.update(i, v)),
{
    let t = s.update(i, v);
    assert forall|p: int, q: int| 0 <= p < q < t.len() implies t[p].id@ != t[q].id@ by {
        assert(s[p].id@ != s[q].id@);
    }
    assert forall|p: int| 0 <= p < t.len() implies record_inv(#[trigger] t[p]) by {
        if p != i {
            assert(t[p] == s[p]);
        }
    }
}

/// The registry: the sole owner and sole mutator of all timer records.
pub struct TimerState {
    timers: Vec<TimerInstance>,
}

impl View for TimerState {
    type V = Seq<TimerInstance>;

    closed spec fn view(&self) -> Seq<TimerInstance> {
        self.timers@
    }
}

impl TimerState {
    /// An empty registry.
    pub fn new() -> (r: Self)
        ensures
            r@.len() == 0,
            wf(r@),
    {
        TimerState { timers: Vec::new() }
    }

    /// The position of the record carrying `timer_id`, if any.
    fn find_index(&self, timer_id: &str) -> (r: Option<usize>)
        ensures
            match r {
                Some(i) => i < self@.len() && self@[i as int].id@ == timer_id@,
                None => !has_id(self@, timer_id@),
            },
    {
        let n = self.timers.len();
        let mut i: usize = 0;
        while i < n
            invariant
                n == self.timers.len(),
                i <= n,
                forall|k: int| 0 <= k < i ==> #[trigger] self.timers@[k].id@ != timer_id@,
            decreases n - i,
        {
            if self.timers[i].id.as_str().eq(timer_id) {
                return Some(i);
            }
            i = i + 1;
        }
        None
    }

    /// Inserts a new idle timer under `id`, or reports `DuplicateId` and
    /// leaves every record — the existing holder of `id` included —
    /// unchanged.
    pub fn create_timer(&mut self, id: String, name: String, duration_ms: i64) -> (r: Result<
        Timer,
        TimerError,
    >)
        requires
            wf(old(self)@),
        ensures
            wf(final(self)@),
            has_id(old(self)@, id@) ==> {
                &&& r == Result::<Timer, TimerError>::Err(TimerError::DuplicateId)
                &&& final(self)@ =~= old(self)@
            },
            !has_id(old(self)@, id@) ==> {
                &&& r is Ok
                &&& final(self)@.len() == old(self)@.len() + 1
                &&& forall|k: int| 0 <= k < old(self)@.len() ==> final(self)@[k] == old(self)@[k]
                &&& fresh_record(final(self)@.last(), id@, name@, duration_ms)
                &&& snapshot_of(r->Ok_0, final(self)@.last())
            },
    {
        match self.find_index(id.as_str()) {
            Some(i) => {
                proof {
                    lemma_index_of_id_is(self@, id@, i as int);
                }
                Err(TimerError::DuplicateId)
            },
            None => {
                let created_at = now_stamp();
                let rec = TimerInstance {
                    id: id.clone(),
                    name: name.clone(),
                    duration_ms,
                    remaining_ms: duration_ms,
                    target_at: None,
                    running: false,
                    completed: false,
                    created_at: created_at.clone(),
                };
                self.timers.push(rec);
                Ok(
                    Timer {
                        id,
                        name,
                        duration_ms,
                        remaining_ms: duration_ms,
                        running: false,
                        completed: false,
                        created_at,
                    },
                )
            },
        }
    }

    /// Removes the record under `timer_id`, or reports `NotFound`. Once
    /// delete returns, no record carries the id, so a late tick for it finds
    /// nothing to do and emits nothing; the caller must also stop the
    /// timer's driver task, for which cooperative cancellation plus a forced
    /// stop of its handle suffices.
    pub fn delete_timer(&mut self, timer_id: &str) -> (r: Result<(), TimerError>)
        requires
            wf(old(self)@),
        ensures
            wf(final(self)@),
            !has_id(old(self)@, timer_id@) ==> {
                &&& r == Result::<(), TimerError>::Err(TimerError::NotFound)
                &&& final(self)@ =~= old(self)@
            },
            has_id(old(self)@, timer_id@) ==> {
                &&& r is Ok
                &&& final(self)@ =~= old(self)@.remove(index_of_id(old(self)@, timer_id@))
                &&& !has_id(final(self)@, timer_id@)
            },
    {
        match self.find_index(timer_id) {
            Some(i) => {
                proof {
                    lemma_index_of_id_is(self@, timer_id@, i as int);
                    lemma_remove_keeps_wf(self@, i as int);
                }
                self.timers.remove(i);
                Ok(())
            },
            None => Err(TimerError::NotFound),
        }
    }

    /// Sets the timer under `timer_id` running toward the deadline
    /// `now_ms + remaining_ms`, from any state: an idle, paused, completed
    /// or already-running timer all restart from their current remaining
    /// time. Returns the progress notification to deliver; the caller must
    /// first stop any driver task it still holds for this id, then launch a
    /// fresh one, so at most one driver ever ticks a given timer.
    pub fn start_timer(&mut self, timer_id: &str, now_ms: i64) -> (r: Result<
        TickPayload,
        TimerError,
    >)
        requires
            wf(old(self)@),
        ensures
            wf(final(self)@),
            !has_id(old(self)@, timer_id@) ==> {
                &&& r == Result::<TickPayload, TimerError>::Err(TimerError::NotFound)
                &&& final(self)@ =~= old(self)@
            },
            has_id(old(self)@, timer_id@) ==> {
                let i = index_of_id(old(self)@, timer_id@);
                &&& r is Ok
                &&& final(self)@ =~= old(self)@.update(i, final(self)@[i])
                &&& started_record(final(self)@[i], old(self)@[i], now_ms)
                &&& payload_of(r->Ok_0, final(self)@[i])
            },
    {
        match self.find_index(timer_id) {
            Some(i) => {
                proof {
                    lemma_index_of_id_is(self@, timer_id@, i as int);
                }
                let rec = &self.timers[i];
                let id_c = rec.id.clone();
                let name_c = rec.name.clone();
                let created_c = rec.created_at.clone();
                let duration_ms = rec.duration_ms;
                let remaining_ms = rec.remaining_ms;
                let target = sat_add_i64(now_ms, remaining_ms);
                let payload = TickPayload {
                    timer_id: id_c.clone(),
                    remaining_ms,
                    duration_ms,
                    running: true,
                };
                let updated = TimerInstance {
                    id: id_c,
                    name: name_c,
                    duration_ms,
                    remaining_ms,
                    target_at: Some(target),
                    running: true,
                    completed: false,
                    created_at: created_c,
                };
                proof {
                    lemma_update_keeps_wf(self@, i as int, updated);
                }
                self.timers[i] = updated;
                Ok(payload)
            },
            None => Err(TimerError::NotFound),
        }
    }

    /// Freezes the running timer under `timer_id`: reads the remaining time
    /// off its deadline one final time and stops it there, returning the
    /// progress notification to deliver (the caller must also stop the
    /// timer's driver task). A timer that is not running is left untouched,
    /// with `Ok(None)`.
    pub fn pause_timer(&mut self, timer_id: &str, now_ms: i64) -> (r: Result<
        Option<TickPayload>,
        TimerError,
    >)
        requires
            wf(old(self)@),
        ensures
            wf(final(self)@),
            !has_id(old(self)@, timer_id@) ==> {
                &&& r == Result::<Option<TickPayload>, TimerError>::Err(TimerError::NotFound)
                &&& final(self)@ =~= old(self)@
            },
            has_id(old(self)@, timer_id@) ==> {
                let i = index_of_id(old(self)@, timer_id@);
                &&& !old(self)@[i].running ==> {
                    &&& r == Result::<Option<TickPayload>, TimerError>::Ok(None)
                    &&& final(self)@ =~= old(self)@
                }
                &&& old(self)@[i].running ==> {
                    &&& r is Ok && r->Ok_0 is Some
                    &&& final(self)@ =~= old(self)@.update(i, final(self)@[i])
                    &&& paused_record(final(self)@[i], old(self)@[i], now_ms)
                    &&& payload_of(r->Ok_0->0, final(self)@[i])
                }
            },
    {
        match self.find_index(timer_id) {
            Some(i) => {
                proof {
                    lemma_index_of_id_is(self@, timer_id@, i as int);
                    assert(record_inv(self@[i as int]));
                }
                if !self.timers[i].running {
                    return Ok(None);
                }
                let rec = &self.timers[i];
                let target = rec.target_at.unwrap();
                let remaining_ms = remaining_ms_at(target, now_ms);
                let id_c = rec.id.clone();
                let name_c = rec.name.clone();
                let created_c = rec.created_at.clone();
                let duration_ms = rec.duration_ms;
                let completed = rec.completed;
                let payload = TickPayload {
                    timer_id: id_c.clone(),
                    remaining_ms,
                    duration_ms,
                    running: false,
                };
                let updated = TimerInstance {
                    id: id_c,
                    name: name_c,
                    duration_ms,
                    remaining_ms,
                    target_at: None,
                    running: false,
                    completed,
                    created_at: created_c,
                };
                proof {
                    lemma_update_keeps_wf(self@, i as int, updated);
                }
                self.timers[i] = updated;
                Ok(Some(payload))
            },
            None => Err(TimerError::NotFound),
        }
    }

    /// Resumes the timer under `timer_id`: a no-op on a timer that is
    /// already running (`Ok(None)` — no second driver task is to be
    /// launched), and otherwise exactly a start from the current remaining
    /// time. A completed timer resumes with nothing remaining and so
    /// finishes on its first tick; there is no fall back to the configured
    /// duration.
    pub fn resume_timer(&mut self, timer_id: &str, now_ms: i64) -> (r: Result<
        Option<TickPayload>,
        TimerError,
    >)
        requires
            wf(old(self)@),
        ensures
            wf(final(self)@),
            !has_id(old(self)@, timer_id@) ==> {
                &&& r == Result::<Option<TickPayload>, TimerError>::Err(TimerError::NotFound)
                &&& final(self)@ =~= old(self)@
            },
            has_id(old(self)@, timer_id@) ==> {
                let i = index_of_id(old(self)@, timer_id@);
                &&& old(self)@[i].running ==> {
                    &&& r == Result::<Option<TickPayload>, TimerError>::Ok(None)
                    &&& final(self)@ =~= old(self)@
                }
                &&& !old(self)@[i].running ==> {
                    &&& r is Ok && r->Ok_0 is Some
                    &&& final(self)@ =~= old(self)@.update(i, final(self)@[i])
                    &&& started_record(final(self)@[i], old(self)@[i], now_ms)
                    &&& payload_of(r->Ok_0->0, final(self)@[i])
                }
            },
    {
        match self.find_index(timer_id) {
            Some(i) => {
                proof {
                    lemma_index_of_id_is(self@, timer_id@, i as int);
                }
                if self.timers[i].running {
                    return Ok(None);
                }
                match self.start_timer(timer_id, now_ms) {
                    Ok(p) => Ok(Some(p)),
                    Err(e) => Err(e),
                }
            },
            None => Err(TimerError::NotFound),
        }
    }

    /// Restores the timer under `timer_id` to its configured duration,
    /// idle and not completed, whatever its prior state, and returns the
    /// progress notification to deliver (the caller must also stop any
    /// driver task it holds for this id).
    pub fn reset_timer(&mut self, timer_id: &str) -> (r: Result<TickPayload, TimerError>)
        requires
            wf(old(self)@),
        ensures
            wf(final(self)@),
            !has_id(old(self)@, timer_id@) ==> {
                &&& r == Result::<TickPayload, TimerError>::Err(TimerError::NotFound)
                &&& final(self)@ =~= old(self)@
            },
            has_id(old(self)@, timer_id@) ==> {
                let i = index_of_id(old(self)@, timer_id@);
                &&& r is Ok
                &&& final(self)@ =~= old(self)@.update(i, final(self)@[i])
                &&& reset_record(final(self)@[i], old(self)@[i])
                &&& payload_of(r->Ok_0, final(self)@[i])
            },
    {
        match self.find_index(timer_id) {
            Some(i) => {
                proof {
                    lemma_index_of_id_is(self@, timer_id@, i as int);
                }
                let rec = &self.timers[i];
                let id_c = rec.id.clone();
                let name_c = rec.name.clone();
                let created_c = rec.created_at.clone();
                let duration_ms = rec.duration_ms;
                let payload = TickPayload {
                    timer_id: id_c.clone(),
                    remaining_ms: duration_ms,
                    duration_ms,
                    running: false,
                };
                let updated = TimerInstance {
                    id: id_c,
                    name: name_c,
                    duration_ms,
                    remaining_ms: duration_ms,
                    target_at: None,
                    running: false,
                    completed: false,
                    created_at: created_c,
                };
                proof {
                    lemma_update_keeps_wf(self@, i as int, updated);
                }
                self.timers[i] = updated;
                Ok(payload)
            },
            None => Err(TimerError::NotFound),
        }
    }

    /// One tick of a timer's periodic driver at time `now_ms`: reads the
    /// remaining time off the record's absolute deadline, stores it, and
    /// says what to deliver and whether to keep ticking. A record whose id
    /// is gone means the timer was deleted out from under the driver: there
    /// is nothing to do and nothing to emit. A countdown that is due is
    /// stopped and marked completed.
    pub fn tick(&mut self, timer_id: &str, now_ms: i64) -> (r: TickOutcome)
        requires
            wf(old(self)@),
        ensures
            wf(final(self)@),
            !has_id(old(self)@, timer_id@) ==> {
                &&& r is Gone
                &&& final(self)@ =~= old(self)@
            },
            has_id(old(self)@, timer_id@) ==> {
                let i = index_of_id(old(self)@, timer_id@);
                let prev = old(self)@[i];
                let rem = tick_remaining(prev, now_ms);
                &&& final(self)@ =~= old(self)@.update(i, final(self)@[i])
                &&& rem > 0 ==> {
                    &&& (r matches TickOutcome::Progress(p) && {
                        &&& p.timer_id@ == prev.id@
                        &&& p.remaining_ms as int == rem
                        &&& p.duration_ms == prev.duration_ms
                        &&& p.running == prev.running
                    })
                    &&& ticked_record(final(self)@[i], prev, now_ms)
                }
                &&& rem == 0 ==> {
                    &&& (r matches TickOutcome::Finished(p, d) && {
                        &&& p.timer_id@ == prev.id@
                        &&& p.remaining_ms == 0
                        &&& p.duration_ms == prev.duration_ms
                        &&& p.running == prev.running
                        &&& d.timer_id@ == prev.id@
                        &&& d.finished_at@.len() > 0
                    })
                    &&& completed_record(final(self)@[i], prev)
                }
            },
    {
        match self.find_index(timer_id) {
            Some(i) => {
                proof {
                    lemma_index_of_id_is(self@, timer_id@, i as int);
                    assert(record_inv(self@[i as int]));
                }
                let rec = &self.timers[i];
                let rem = match rec.target_at {
                    Some(t) => remaining_ms_at(t, now_ms),
                    None => 0,
                };
                let id_c = rec.id.clone();
                let name_c = rec.name.clone();
                let created_c = rec.created_at.clone();
                let duration_ms = rec.duration_ms;
                let running = rec.running;
                let completed = rec.completed;
                let target_at = rec.target_at;
                let payload = TickPayload {
                    timer_id: id_c.clone(),
                    remaining_ms: rem,
                    duration_ms,
                    running,
                };
                if rem > 0 {
                    let updated = TimerInstance {
                        id: id_c,
                        name: name_c,
                        duration_ms,
                        remaining_ms: rem,
                        target_at,
                        running,
                        completed,
                        created_at: created_c,
                    };
                    proof {
                        lemma_update_keeps_wf(self@, i as int, updated);
                    }
                    self.timers[i] = updated;
                    TickOutcome::Progress(payload)
                } else {
                    let done = DonePayload { timer_id: id_c.clone(), finished_at: now_stamp() };
                    let updated = TimerInstance {
                        id: id_c,
                        name: name_c,
                        duration_ms,
                        remaining_ms: 0,
                        target_at: None,
                        running: false,
                        completed: true,
                        created_at: created_c,
                    };
                    proof {
                        lemma_update_keeps_wf(self@, i as int, updated);
                    }
                    self.timers[i] = updated;
                    TickOutcome::Finished(payload, done)
                }
            },
            None => TickOutcome::Gone,
        }
    }

    /// Snapshots of all live records, in the registry's own order.
    pub fn get_all_timers(&self) -> (r: Vec<Timer>)
        ensures
            r@.len() == self@.len(),
            forall|i: int| 0 <= i < r@.len() ==> snapshot_of(#[trigger] r@[i], self@[i]),
    {
        let n = self.timers.len();
        let mut out: Vec<Timer> = Vec::new();
        let mut i: usize = 0;
        while i < n
            invariant
                n == self.timers.len(),
                i <= n,
                out@.len() == i,
                forall|k: int| 0 <= k < i ==> snapshot_of(#[trigger] out@[k], self.timers@[k]),
            decreases n - i,
        {
            let rec = &self.timers[i];
            let snap = Timer {
                id: rec.id.clone(),
                name: rec.name.clone(),
                duration_ms: rec.duration_ms,
                remaining_ms: rec.remaining_ms,
                running: rec.running,
                completed: rec.completed,
                created_at: rec.created_at.clone(),
            };
            out.push(snap);
            i = i + 1;
        }
        out
    }
}

impl Default for TimerState {
    /// An empty registry.
    fn default() -> (r: Self)
        ensures
            r@.len() == 0,
            wf(r@),
    {
        TimerState::new()
    }
}

} // verus!
