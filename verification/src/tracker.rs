//! The tracking daemon's bookkeeping: which window is being timed, whether
//! timing is paused, and which interval must be written to the database.
//!
//! The tracker does no I/O itself. Each operation updates the state and
//! answers with the one database write that it calls for (a `StoreAction`);
//! the caller performs it. After an `InsertInterval` whose `remember_id` is
//! set, the caller hands the new row's id back through `record_inserted_id`
//! before anything else, so that later writes for the same session update
//! that row; the tracker accepts an id at no other time.

use vstd::prelude::*;

use crate::clock::{chrono_timestamp_bound, SystemClock};
use crate::watcher::WindowEvent;

verus! {

/// The session being timed: one window, from `started_at` to `ended_at`
/// (UNIX seconds), and the database row that holds it once written.
struct ActiveSession {
    db_id: Option<i64>,
    app_id: String,
    title: String,
    started_at: i64,
    ended_at: i64,
}

/// A session as a mathematical value.
pub struct SessionView {
    pub db_id: Option<i64>,
    pub app_id: Seq<char>,
    pub title: Seq<char>,
    pub started_at: i64,
    pub ended_at: i64,
}

/// The tracker's state as a mathematical value. `awaiting_id` holds right
/// after an operation that answered with an insert whose row id is to be
/// handed back, and only then.
pub struct TrackerView {
    pub session: Option<SessionView>,
    pub paused: bool,
    pub awaiting_id: bool,
}

/// A write that the tracker asks of the database.
#[derive(Debug, Clone, PartialEq, Eq)]
pub enum StoreAction {
    /// No write.
    Nothing,
    /// Insert a new interval row. When `remember_id` is set, the session
    /// goes on and the new row's id is to be handed back to the tracker.
    InsertInterval {
        app_id: String,
        title: String,
        started_at: i64,
        ended_at: i64,
        remember_id: bool,
    },
    /// Move the end of the interval row `id` to `ended_at`.
    UpdateIntervalEnd { id: i64, ended_at: i64 },
}

/// A database write as a mathematical value.
pub enum StoreActionView {
    Nothing,
    InsertInterval {
        app_id: Seq<char>,
        title: Seq<char>,
        started_at: i64,
        ended_at: i64,
        remember_id: bool,
    },
    UpdateIntervalEnd { id: i64, ended_at: i64 },
}

impl View for StoreAction {
    type V = StoreActionView;

    open spec fn view(&self) -> StoreActionView {
        match self {
            StoreAction::Nothing => StoreActionView::Nothing,
            StoreAction::InsertInterval { app_id, title, started_at, ended_at, remember_id } =>
                StoreActionView::InsertInterval {
                app_id: app_id@,
                title: title@,
                started_at: *started_at,
                ended_at: *ended_at,
                remember_id: *remember_id,
            },
            StoreAction::UpdateIntervalEnd { id, ended_at } => StoreActionView::UpdateIntervalEnd {
                id: *id,
                ended_at: *ended_at,
            },
        }
    }
}

impl View for ActiveSession {
    type V = SessionView;

    closed spec fn view(&self) -> SessionView {
        SessionView {
            db_id: self.db_id,
            app_id: self.app_id@,
            title: self.title@,
            started_at: self.started_at,
            ended_at: self.ended_at,
        }
    }
}

/// The session with its end moved to `end`.
pub open spec fn ended_at(s: SessionView, end: i64) -> SessionView {
    SessionView {
        db_id: s.db_id,
        app_id: s.app_id,
        title: s.title,
        started_at: s.started_at,
        ended_at: end,
    }
}

/// The write that stores a session: nothing while it lasts less than a
/// second; else an update of its row when it has one, or the insert of a
/// new row.
pub open spec fn store_session(s: SessionView, remember_id: bool) -> StoreActionView {
    if s.ended_at - s.started_at >= 1 {
        match s.db_id {
            Some(id) => StoreActionView::UpdateIntervalEnd { id, ended_at: s.ended_at },
            None => StoreActionView::InsertInterval {
                app_id: s.app_id,
                title: s.title,
                started_at: s.started_at,
                ended_at: s.ended_at,
                remember_id,
            },
        }
    } else {
        StoreActionView::Nothing
    }
}

/// Whether the write `a` is an insert whose row id is to be handed back.
pub open spec fn asks_for_id(a: StoreActionView) -> bool {
    a matches StoreActionView::InsertInterval { remember_id: true, .. }
}

/// The outcome of an operation: the new session and pause flag, the write
/// asked for, and an id awaited exactly when that write asks for one.
pub open spec fn outcome(session: Option<SessionView>, paused: bool, action: StoreActionView) -> (
    TrackerView,
    StoreActionView,
) {
    (TrackerView { session, paused, awaiting_id: asks_for_id(action) }, action)
}

/// Pausing at `now`: when running, the session (if any) ends at `now` and
/// is stored; the tracker is paused. When already paused, nothing is
/// written and the session stays as it is.
pub open spec fn pause_step(t: TrackerView, now: i64) -> (TrackerView, StoreActionView) {
    if t.paused {
        outcome(t.session, true, StoreActionView::Nothing)
    } else {
        match t.session {
            Some(s) => outcome(Some(ended_at(s, now)), true, store_session(ended_at(s, now), true)),
            None => outcome(None, true, StoreActionView::Nothing),
        }
    }
}

/// Resuming at `now`: when paused, the session (if any) starts afresh at
/// `now`, with no row yet; the tracker runs. When running, the session and
/// the flag stay as they are. No id is awaited afterwards.
pub open spec fn resume_step(t: TrackerView, now: i64) -> TrackerView {
    if !t.paused {
        TrackerView { session: t.session, paused: false, awaiting_id: false }
    } else {
        TrackerView {
            session: match t.session {
                Some(s) => Some(fresh_session(s.app_id, s.title, now)),
                None => None,
            },
            paused: false,
            awaiting_id: false,
        }
    }
}

/// A session that starts at `now` on a window, with no row yet.
pub open spec fn fresh_session(app_id: Seq<char>, title: Seq<char>, now: i64) -> SessionView {
    SessionView { db_id: None, app_id, title, started_at: now, ended_at: now }
}

/// A window event at `now`: the tracker runs again. The same window (same
/// application and title) only extends the session to `now`. Another window
/// ends the session (if any) at `now`, stores it, and starts a fresh one.
pub open spec fn window_step(t: TrackerView, now: i64, app_id: Seq<char>, title: Seq<char>) -> (
    TrackerView,
    StoreActionView,
) {
    match t.session {
        Some(s) => if s.app_id == app_id && s.title == title {
            outcome(Some(ended_at(s, now)), false, StoreActionView::Nothing)
        } else {
            outcome(
                Some(fresh_session(app_id, title, now)),
                false,
                store_session(ended_at(s, now), false),
            )
        },
        None => outcome(Some(fresh_session(app_id, title, now)), false, StoreActionView::Nothing),
    }
}

/// A heartbeat at `now`: when running with a session, the session ends at
/// `now` and is stored. Otherwise nothing is written and the session and
/// the flag stay as they are.
pub open spec fn heartbeat_step(t: TrackerView, now: i64) -> (TrackerView, StoreActionView) {
    if t.paused {
        outcome(t.session, true, StoreActionView::Nothing)
    } else {
        match t.session {
            Some(s) => outcome(
                Some(ended_at(s, now)),
                false,
                store_session(ended_at(s, now), true),
            ),
            None => outcome(None, false, StoreActionView::Nothing),
        }
    }
}

/// Flushing at `now`: the session (if any) is closed, its end moved
/// forward to `now` if `now` is later, and stored; no session is left.
pub open spec fn flush_step(t: TrackerView, now: i64) -> (TrackerView, StoreActionView) {
    match t.session {
        Some(s) => {
            let end = if now > s.ended_at {
                now
            } else {
                s.ended_at
            };
            outcome(None, t.paused, store_session(ended_at(s, end), false))
        },
        None => outcome(None, t.paused, StoreActionView::Nothing),
    }
}

/// The session (if any) takes `id` as its database row; no id is awaited
/// any more.
pub open spec fn id_recorded_step(t: TrackerView, id: i64) -> TrackerView {
    TrackerView {
        session: match t.session {
            Some(s) => Some(
                SessionView {
                    db_id: Some(id),
                    app_id: s.app_id,
                    title: s.title,
                    started_at: s.started_at,
                    ended_at: s.ended_at,
                },
            ),
            None => None,
        },
        paused: t.paused,
        awaiting_id: false,
    }
}

/// Tracks the focused window and turns its sessions into database writes.
pub struct Tracker {
    active_session: Option<ActiveSession>,
    is_paused: bool,
    awaiting_id: Ghost<bool>,
    clock: SystemClock,
}

impl View for Tracker {
    type V = TrackerView;

    closed spec fn view(&self) -> TrackerView {
        TrackerView {
            session: match self.active_session {
                Some(s) => Some(s@),
                None => None,
            },
            paused: self.is_paused,
            awaiting_id: self.awaiting_id@,
        }
    }
}

/// The write that stores `session`.
fn store_action(session: &ActiveSession, remember_id: bool) -> (action: StoreAction)
    ensures
        action@ == store_session(session@, remember_id),
{
    if session.ended_at > session.started_at {
        match session.db_id {
            Some(id) => StoreAction::UpdateIntervalEnd { id, ended_at: session.ended_at },
            None => StoreAction::InsertInterval {
                app_id: session.app_id.clone(),
                title: session.title.clone(),
                started_at: session.started_at,
                ended_at: session.ended_at,
                remember_id,
            },
        }
    } else {
        StoreAction::Nothing
    }
}

impl Tracker {
    /// The instants read from the system clock by this tracker so far,
    /// oldest first.
    pub closed spec fn clock_readings(&self) -> Seq<i64> {
        self.clock.readings()
    }

    /// A running tracker with no session, that has read no time yet.
    pub fn new() -> (tracker: Tracker)
        ensures
            tracker@ == (TrackerView { session: None, paused: false, awaiting_id: false }),
            tracker.clock_readings() == Seq::<i64>::empty(),
    {
        Tracker {
            active_session: None,
            is_paused: false,
            awaiting_id: Ghost(false),
            clock: SystemClock::new(),
        }
    }

    /// Pauses at `now` (see `pause_step`).
    pub fn pause_at(&mut self, now: i64) -> (action: StoreAction)
        ensures
            final(self).clock_readings() == old(self).clock_readings(),
            final(self)@ == pause_step(old(self)@, now).0,
            action@ == pause_step(old(self)@, now).1,
    {
        let mut action = StoreAction::Nothing;
        if !self.is_paused {
            match self.active_session.take() {
                Some(mut session) => {
                    session.ended_at = now;
                    action = store_action(&session, true);
                    self.active_session = Some(session);
                },
                None => {},
            }
        }
        self.is_paused = true;
        self.awaiting_id = Ghost(asks_for_id(action@));
        action
    }

    /// Pauses at the current time of the system clock, which is read only
    /// when a running session is to be ended: then the session ends at
    /// exactly the instant read, the one logged last.
    pub fn pause(&mut self) -> (action: StoreAction)
        ensures
            !old(self)@.paused && old(self)@.session is Some ==> {
                let now = final(self).clock_readings().last();
                &&& final(self).clock_readings() == old(self).clock_readings().push(now)
                &&& final(self)@ == pause_step(old(self)@, now).0
                &&& action@ == pause_step(old(self)@, now).1
            },
            old(self)@.paused || old(self)@.session is None ==> {
                &&& final(self).clock_readings() == old(self).clock_readings()
                &&& final(self)@ == (TrackerView {
                    session: old(self)@.session,
                    paused: true,
                    awaiting_id: false,
                })
                &&& action@ == StoreActionView::Nothing
            },
            exists|now: i64|
                #![trigger pause_step(old(self)@, now)]
                -chrono_timestamp_bound() <= now <= chrono_timestamp_bound() && final(self)@
                    == pause_step(old(self)@, now).0 && action@ == pause_step(old(self)@, now).1,
    {
        if self.is_paused || self.active_session.is_none() {
            let ghost before = self@;
            let action = StoreAction::Nothing;
            self.is_paused = true;
            self.awaiting_id = Ghost(false);
            assert(self@ == pause_step(before, 0).0);
            return action;
        }
        let now = self.clock.read_timestamp();
        self.pause_at(now)
    }

    /// Resumes at `now` (see `resume_step`).
    pub fn resume_at(&mut self, now: i64)
        ensures
            final(self).clock_readings() == old(self).clock_readings(),
            final(self)@ == resume_step(old(self)@, now),
    {
        self.awaiting_id = Ghost(false);
        if !self.is_paused {
            return ;
        }
        self.is_paused = false;
        match self.active_session.take() {
            Some(mut session) => {
                session.started_at = now;
                session.ended_at = now;
                session.db_id = None;
                self.active_session = Some(session);
            },
            None => {},
        }
    }

    /// Resumes at the current time of the system clock, which is read only
    /// when the tracker is paused: then the session restarts at exactly the
    /// instant read, the one logged last.
    pub fn resume(&mut self)
        ensures
            old(self)@.paused ==> {
                let now = final(self).clock_readings().last();
                &&& final(self).clock_readings() == old(self).clock_readings().push(now)
                &&& final(self)@ == resume_step(old(self)@, now)
            },
            !old(self)@.paused ==> {
                &&& final(self).clock_readings() == old(self).clock_readings()
                &&& final(self)@ == (TrackerView {
                    session: old(self)@.session,
                    paused: false,
                    awaiting_id: false,
                })
            },
            exists|now: i64|
                #![trigger resume_step(old(self)@, now)]
                -chrono_timestamp_bound() <= now <= chrono_timestamp_bound() && final(self)@
                    == resume_step(old(self)@, now),
    {
        if !self.is_paused {
            let ghost before = self@;
            self.awaiting_id = Ghost(false);
            assert(self@ == resume_step(before, 0));
            return ;
        }
        let now = self.clock.read_timestamp();
        self.resume_at(now)
    }

    /// Handles the focus (or title) change `event` at `now` (see
    /// `window_step`).
    pub fn handle_window_event_at(&mut self, event: WindowEvent, now: i64) -> (action: StoreAction)
        ensures
            final(self).clock_readings() == old(self).clock_readings(),
            final(self)@ == window_step(old(self)@, now, event.app_id@, event.title@).0,
            action@ == window_step(old(self)@, now, event.app_id@, event.title@).1,
    {
        self.is_paused = false;
        self.awaiting_id = Ghost(false);
        let mut action = StoreAction::Nothing;
        match self.active_session.take() {
            Some(mut session) => {
                if session.app_id == event.app_id && session.title == event.title {
                    session.ended_at = now;
                    self.active_session = Some(session);
                    return StoreAction::Nothing;
                }
                session.ended_at = now;
                action = store_action(&session, false);
            },
            None => {},
        }
        self.active_session = Some(
            ActiveSession {
                db_id: None,
                app_id: event.app_id,
                title: event.title,
                started_at: now,
                ended_at: now,
            },
        );
        action
    }

    /// Handles the focus (or title) change `event` at the current time of
    /// the system clock: exactly the instant read, the one logged last.
    pub fn handle_window_event(&mut self, event: WindowEvent) -> (action: StoreAction)
        ensures
            ({
                let now = final(self).clock_readings().last();
                &&& final(self).clock_readings() == old(self).clock_readings().push(now)
                &&& final(self)@ == window_step(old(self)@, now, event.app_id@, event.title@).0
                &&& action@ == window_step(old(self)@, now, event.app_id@, event.title@).1
            }),
            exists|now: i64|
                #![trigger window_step(old(self)@, now, event.app_id@, event.title@)]
                -chrono_timestamp_bound() <= now <= chrono_timestamp_bound() && final(self)@
                    == window_step(old(self)@, now, event.app_id@, event.title@).0 && action@
                    == window_step(old(self)@, now, event.app_id@, event.title@).1,
    {
        let now = self.clock.read_timestamp();
        self.handle_window_event_at(event, now)
    }

    /// Marks the session as still active at `now`, the time of a periodic
    /// heartbeat (see `heartbeat_step`).
    pub fn heartbeat(&mut self, now: i64) -> (action: StoreAction)
        ensures
            final(self).clock_readings() == old(self).clock_readings(),
            final(self)@ == heartbeat_step(old(self)@, now).0,
            action@ == heartbeat_step(old(self)@, now).1,
    {
        let mut action = StoreAction::Nothing;
        if !self.is_paused {
            match self.active_session.take() {
                Some(mut session) => {
                    session.ended_at = now;
                    action = store_action(&session, true);
                    self.active_session = Some(session);
                },
                None => {},
            }
        }
        self.awaiting_id = Ghost(asks_for_id(action@));
        action
    }

    /// Closes the session at `now` (see `flush_step`).
    pub fn flush_at(&mut self, now: i64) -> (action: StoreAction)
        ensures
            final(self).clock_readings() == old(self).clock_readings(),
            final(self)@ == flush_step(old(self)@, now).0,
            action@ == flush_step(old(self)@, now).1,
    {
        let action = match self.active_session.take() {
            Some(mut session) => {
                if now > session.ended_at {
                    session.ended_at = now;
                }
                store_action(&session, false)
            },
            None => StoreAction::Nothing,
        };
        self.awaiting_id = Ghost(false);
        action
    }

    /// Closes the session at the current time of the system clock, which is
    /// read only when there is a session: then the session is closed at
    /// exactly the instant read, the one logged last.
    pub fn flush(&mut self) -> (action: StoreAction)
        ensures
            old(self)@.session is Some ==> {
                let now = final(self).clock_readings().last();
                &&& final(self).clock_readings() == old(self).clock_readings().push(now)
                &&& final(self)@ == flush_step(old(self)@, now).0
                &&& action@ == flush_step(old(self)@, now).1
            },
            old(self)@.session is None ==> {
                &&& final(self).clock_readings() == old(self).clock_readings()
                &&& final(self)@ == (TrackerView {
                    session: None,
                    paused: old(self)@.paused,
                    awaiting_id: false,
                })
                &&& action@ == StoreActionView::Nothing
            },
            exists|now: i64|
                #![trigger flush_step(old(self)@, now)]
                -chrono_timestamp_bound() <= now <= chrono_timestamp_bound() && final(self)@
                    == flush_step(old(self)@, now).0 && action@ == flush_step(old(self)@, now).1,
    {
        if self.active_session.is_none() {
            let ghost before = self@;
            self.awaiting_id = Ghost(false);
            assert(self@ == flush_step(before, 0).0);
            return StoreAction::Nothing;
        }
        let now = self.clock.read_timestamp();
        self.flush_at(now)
    }

    /// Takes `id`, the row that the insert just answered by the last
    /// operation (one with `remember_id` set) has created, as the session's
    /// row (see `id_recorded_step`). Nothing else may come in between.
    pub fn record_inserted_id(&mut self, id: i64)
        requires
            old(self)@.awaiting_id,
        ensures
            final(self).clock_readings() == old(self).clock_readings(),
            final(self)@ == id_recorded_step(old(self)@, id),
    {
        match self.active_session.take() {
            Some(mut session) => {
                session.db_id = Some(id);
                self.active_session = Some(session);
            },
            None => {},
        }
        self.awaiting_id = Ghost(false);
    }
}

/// The database write `a` inserts an interval that lasts at least a second,
/// or inserts nothing.
pub open spec fn inserts_whole_seconds(a: StoreActionView) -> bool {
    match a {
        StoreActionView::InsertInterval { started_at, ended_at, .. } => ended_at - started_at >= 1,
        _ => true,
    }
}

/// No operation of the tracker ever asks to insert an interval shorter than
/// a second.
pub proof fn lemma_no_interval_under_a_second(
    t: TrackerView,
    now: i64,
    app_id: Seq<char>,
    title: Seq<char>,
)
    ensures
        inserts_whole_seconds(pause_step(t, now).1),
        inserts_whole_seconds(window_step(t, now, app_id, title).1),
        inserts_whole_seconds(heartbeat_step(t, now).1),
        inserts_whole_seconds(flush_step(t, now).1),
{
}

/// Pausing twice is pausing once: a paused tracker, paused again, writes
/// nothing and keeps its session.
pub proof fn lemma_pause_is_idempotent(t: TrackerView, first: i64, second: i64)
    ensures
        ({
            let p = pause_step(t, first).0;
            &&& pause_step(p, second).0.session == p.session
            &&& pause_step(p, second).0.paused
            &&& pause_step(p, second).1 == StoreActionView::Nothing
        }),
{
}

/// While paused, heartbeats neither write nor change the session; and
/// resuming a running tracker keeps its session.
pub proof fn lemma_idle_operations(t: TrackerView, now: i64)
    ensures
        t.paused ==> heartbeat_step(t, now).0.session == t.session && heartbeat_step(t, now).0.paused
            && heartbeat_step(t, now).1 == StoreActionView::Nothing,
        !t.paused ==> resume_step(t, now).session == t.session && !resume_step(t, now).paused,
{
}

/// Resuming restarts the clock: after a pause and a resume, the tracker
/// runs, and the session (if any) starts afresh at the resume, on the same
/// window, with no row yet, so the span between them is not counted.
pub proof fn lemma_pause_then_resume_restarts(t: TrackerView, paused_at: i64, resumed_at: i64)
    ensures
        !resume_step(pause_step(t, paused_at).0, resumed_at).paused,
        resume_step(pause_step(t, paused_at).0, resumed_at).session == match t.session {
            Some(s) => Some(fresh_session(s.app_id, s.title, resumed_at)),
            None => None,
        },
{
}

/// A window event leaves the tracker running with a session on that
/// window; the same window again only extends the session, with no write.
pub proof fn lemma_same_window_extends_session(
    t: TrackerView,
    first: i64,
    second: i64,
    app_id: Seq<char>,
    title: Seq<char>,
)
    ensures
        ({
            let after = window_step(t, first, app_id, title).0;
            &&& !after.paused
            &&& after.session matches Some(s) && s.app_id == app_id && s.title == title
            &&& window_step(after, second, app_id, title).1 == StoreActionView::Nothing
            &&& window_step(after, second, app_id, title).0.session == Some(
                ended_at(after.session.unwrap(), second),
            )
        }),
{
}

/// A flush leaves no session, so a heartbeat after it writes nothing.
pub proof fn lemma_flush_leaves_nothing_to_write(t: TrackerView, flushed_at: i64, now: i64)
    ensures
        flush_step(t, flushed_at).0.session is None,
        heartbeat_step(flush_step(t, flushed_at).0, now).1 == StoreActionView::Nothing,
{
}

/// An id is awaited only right after a pause or a heartbeat that answered
/// with an insert of the session that goes on, which has no row yet; the
/// id handed back then becomes the row of exactly that session. After any
/// other operation (a resume, a window event, a flush, a recorded id) no id
/// is awaited, so none can be taken.
pub proof fn lemma_recorded_id_is_row_of_inserted_session(
    t: TrackerView,
    now: i64,
    app_id: Seq<char>,
    title: Seq<char>,
    id: i64,
)
    ensures
        pause_step(t, now).0.awaiting_id ==> (pause_step(t, now).1 matches StoreActionView::InsertInterval {
            app_id: a,
            title: b,
            started_at: s,
            ended_at: e,
            remember_id: true,
        } && pause_step(t, now).0.session == Some(
            SessionView { db_id: None, app_id: a, title: b, started_at: s, ended_at: e },
        ) && id_recorded_step(pause_step(t, now).0, id).session == Some(
            SessionView { db_id: Some(id), app_id: a, title: b, started_at: s, ended_at: e },
        )),
        heartbeat_step(t, now).0.awaiting_id ==> (heartbeat_step(
            t,
            now,
        ).1 matches StoreActionView::InsertInterval {
            app_id: a,
            title: b,
            started_at: s,
            ended_at: e,
            remember_id: true,
        } && heartbeat_step(t, now).0.session == Some(
            SessionView { db_id: None, app_id: a, title: b, started_at: s, ended_at: e },
        ) && id_recorded_step(heartbeat_step(t, now).0, id).session == Some(
            SessionView { db_id: Some(id), app_id: a, title: b, started_at: s, ended_at: e },
        )),
        !resume_step(t, now).awaiting_id,
        !window_step(t, now, app_id, title).0.awaiting_id,
        !flush_step(t, now).0.awaiting_id,
        !id_recorded_step(t, id).awaiting_id,
{
}

/// Once a session has its row, every write for it updates that row: no
/// operation inserts it a second time.
pub proof fn lemma_session_with_row_is_only_updated(
    t: TrackerView,
    now: i64,
    app_id: Seq<char>,
    title: Seq<char>,
)
    requires
        t.session matches Some(s) && s.db_id is Some,
    ensures
        ({
            let id = t.session.unwrap().db_id.unwrap();
            let updates_row = |a: StoreActionView|
                a == StoreActionView::Nothing || (a matches StoreActionView::UpdateIntervalEnd {
                    id: i,
                    ..
                } && i == id);
            &&& updates_row(pause_step(t, now).1)
            &&& updates_row(heartbeat_step(t, now).1)
            &&& updates_row(window_step(t, now, app_id, title).1)
            &&& updates_row(flush_step(t, now).1)
        }),
{
}

/// What is written is what is read back: once the row id of a heartbeat's
/// insert is handed back, the next heartbeat at least a second after the
/// session began updates that row instead of inserting another.
pub proof fn lemma_recorded_row_is_updated(t: TrackerView, first: i64, id: i64, second: i64)
    requires
        heartbeat_step(t, first).1 is InsertInterval,
        second - t.session.unwrap().started_at >= 1,
    ensures
        heartbeat_step(id_recorded_step(heartbeat_step(t, first).0, id), second).1
            == (StoreActionView::UpdateIntervalEnd { id, ended_at: second }),
{
}

/// The end that a write puts on an interval, if it puts one.
pub open spec fn written_end(a: StoreActionView) -> Option<i64> {
    match a {
        StoreActionView::Nothing => None,
        StoreActionView::InsertInterval { ended_at, .. } => Some(ended_at),
        StoreActionView::UpdateIntervalEnd { ended_at, .. } => Some(ended_at),
    }
}

/// Pausing a running session at the time `now` (`pause` takes it from the
/// clock) ends the session at exactly `now`, keeps its start and window,
/// and any interval written ends at `now` and, when inserted, starts where
/// the session started.
pub proof fn lemma_pause_ends_session_at_its_time(t: TrackerView, now: i64)
    requires
        !t.paused,
        t.session is Some,
    ensures
        ({
            let s = t.session.unwrap();
            let (after, write) = pause_step(t, now);
            &&& after.paused
            &&& after.session matches Some(a) && a.ended_at == now && a.started_at == s.started_at
                && a.app_id == s.app_id && a.title == s.title && a.db_id == s.db_id
            &&& written_end(write) is Some ==> written_end(write) == Some(now)
            &&& write matches StoreActionView::InsertInterval { started_at, .. } ==> started_at
                == s.started_at
            &&& (now - s.started_at >= 1) == (written_end(write) is Some)
        }),
{
}

/// Resuming a paused tracker at the time `r` (`resume` takes it from the
/// clock) restarts the session at exactly `r`, with no row: the next write
/// for it is an insert that starts at `r`, never an update of the row
/// written before the pause, so no written interval covers the paused span.
pub proof fn lemma_resume_restarts_at_its_time(t: TrackerView, r: i64, later: i64)
    requires
        t.paused,
    ensures
        ({
            let after = resume_step(t, r);
            &&& !after.paused
            &&& after.session matches Some(a) ==> a.started_at == r && a.ended_at == r
                && a.db_id is None
            &&& heartbeat_step(after, later).1 matches StoreActionView::InsertInterval {
                started_at,
                ended_at,
                ..
            } ==> started_at == r && ended_at == later
            &&& !(heartbeat_step(after, later).1 is UpdateIntervalEnd)
            &&& !(pause_step(after, later).1 is UpdateIntervalEnd)
            &&& !(flush_step(after, later).1 is UpdateIntervalEnd)
        }),
{
}

/// A switch to another window at the time `now` (`handle_window_event`
/// takes it from the clock) closes the previous session at exactly `now`
/// (its write, if any, ends at `now`) and times the new window from `now`;
/// the same window only moves the session's end to `now`, keeping its start.
pub proof fn lemma_window_event_splits_at_its_time(
    t: TrackerView,
    now: i64,
    app_id: Seq<char>,
    title: Seq<char>,
)
    ensures
        ({
            let (after, write) = window_step(t, now, app_id, title);
            let same = t.session matches Some(s) && s.app_id == app_id && s.title == title;
            &&& after.session matches Some(a) && a.ended_at == now && a.app_id == app_id && a.title
                == title
            &&& !same ==> after.session.unwrap().started_at == now && after.session.unwrap().db_id
                is None
            &&& same ==> after.session.unwrap().started_at == t.session.unwrap().started_at
                && write == StoreActionView::Nothing
            &&& written_end(write) is Some ==> written_end(write) == Some(now)
            &&& (!same && t.session is Some && now - t.session.unwrap().started_at >= 1)
                ==> written_end(write) == Some(now)
        }),
{
}

/// Flushing at the time `now` (`flush` takes it from the clock) writes the
/// session up to the later of its end and `now`, never beyond both; the
/// interval keeps its start.
pub proof fn lemma_flush_ends_at_later_of_end_and_time(t: TrackerView, now: i64)
    requires
        t.session is Some,
    ensures
        ({
            let s = t.session.unwrap();
            let end = if now > s.ended_at {
                now
            } else {
                s.ended_at
            };
            let write = flush_step(t, now).1;
            &&& written_end(write) is Some ==> written_end(write) == Some(end)
            &&& written_end(write) is Some ==> written_end(write).unwrap() >= now
                && written_end(write).unwrap() >= s.ended_at
            &&& write matches StoreActionView::InsertInterval { started_at, .. } ==> started_at
                == s.started_at
            &&& (end - s.started_at >= 1) == (written_end(write) is Some)
        }),
{
}

/// A heartbeat at `now` on a running session ends the session at `now`;
/// once it has lasted a second, it writes: an update of the session's row
/// to `now` when it has one, else the insert of the whole session with its
/// id asked back. Under a second, nothing is written.
pub proof fn lemma_heartbeat_writes_session_up_to_now(t: TrackerView, now: i64)
    requires
        !t.paused,
        t.session is Some,
    ensures
        ({
            let s = t.session.unwrap();
            let (after, write) = heartbeat_step(t, now);
            &&& after.session == Some(ended_at(s, now))
            &&& now - s.started_at < 1 ==> write == StoreActionView::Nothing
            &&& now - s.started_at >= 1 && s.db_id is Some ==> write
                == (StoreActionView::UpdateIntervalEnd { id: s.db_id.unwrap(), ended_at: now })
            &&& now - s.started_at >= 1 && s.db_id is None ==> write
                == (StoreActionView::InsertInterval {
                app_id: s.app_id,
                title: s.title,
                started_at: s.started_at,
                ended_at: now,
                remember_id: true,
            })
        }),
{
}

/// One call on a tracker, with the time or the row id it is given; the
/// clock-reading calls are the same steps at the time read.
pub enum TrackerOp {
    WindowEvent { app_id: Seq<char>, title: Seq<char>, now: i64 },
    Pause { now: i64 },
    Resume { now: i64 },
    Heartbeat { now: i64 },
    Flush { now: i64 },
    RecordInsertedId { id: i64 },
}

/// The state and the write after one call.
pub open spec fn op_step(t: TrackerView, op: TrackerOp) -> (TrackerView, StoreActionView) {
    match op {
        TrackerOp::WindowEvent { app_id, title, now } => window_step(t, now, app_id, title),
        TrackerOp::Pause { now } => pause_step(t, now),
        TrackerOp::Resume { now } => (resume_step(t, now), StoreActionView::Nothing),
        TrackerOp::Heartbeat { now } => heartbeat_step(t, now),
        TrackerOp::Flush { now } => flush_step(t, now),
        TrackerOp::RecordInsertedId { id } => (id_recorded_step(t, id), StoreActionView::Nothing),
    }
}

/// The state after the calls `ops`, one after another, from `t`.
pub open spec fn run_ops(t: TrackerView, ops: Seq<TrackerOp>) -> TrackerView
    decreases ops.len(),
{
    if ops.len() == 0 {
        t
    } else {
        op_step(run_ops(t, ops.drop_last()), ops.last()).0
    }
}

/// The write answered by the call `ops[k]` of the run `ops` from `t`.
pub open spec fn write_of_call(t: TrackerView, ops: Seq<TrackerOp>, k: int) -> StoreActionView {
    op_step(run_ops(t, ops.take(k)), ops[k]).1
}

/// Every id handed back in `ops` is handed back while one is awaited, as
/// `record_inserted_id` requires.
pub open spec fn ids_handed_back_when_awaited(t: TrackerView, ops: Seq<TrackerOp>) -> bool {
    forall|k: int|
        0 <= k < ops.len() && (#[trigger] ops[k] is RecordInsertedId) ==> run_ops(
            t,
            ops.take(k),
        ).awaiting_id
}

/// The state of a new tracker.
pub open spec fn new_tracker() -> TrackerView {
    TrackerView { session: None, paused: false, awaiting_id: false }
}

/// A call other than handing back an id never gives a session a row: the
/// session after it either has no row, or it is the session before it with
/// the same row, window and start.
proof fn lemma_only_recording_gives_a_row(t: TrackerView, op: TrackerOp)
    requires
        !(op is RecordInsertedId),
        op_step(t, op).0.session matches Some(s) && s.db_id is Some,
    ensures
        t.session matches Some(s0) && ({
            let s = op_step(t, op).0.session.unwrap();
            &&& s0.db_id == s.db_id
            &&& s0.app_id == s.app_id
            &&& s0.title == s.title
            &&& s0.started_at == s.started_at
        }),
{
}

/// An id is awaited after a run only when its last call answered with an
/// insert of the session that goes on, which has no row yet.
proof fn lemma_awaited_id_follows_insert(ops: Seq<TrackerOp>)
    ensures
        run_ops(new_tracker(), ops).awaiting_id ==> ops.len() > 0 && (write_of_call(
            new_tracker(),
            ops,
            ops.len() - 1,
        ) matches StoreActionView::InsertInterval {
            app_id: a,
            title: b,
            started_at: s,
            ended_at: e,
            remember_id: true,
        } && run_ops(new_tracker(), ops).session == Some(
            SessionView { db_id: None, app_id: a, title: b, started_at: s, ended_at: e },
        )),
{
    if ops.len() > 0 {
        let k = ops.len() - 1;
        assert(ops.take(k) =~= ops.drop_last());
        let before = run_ops(new_tracker(), ops.drop_last());
        match ops.last() {
            TrackerOp::WindowEvent { app_id, title, now } => {
                lemma_recorded_id_is_row_of_inserted_session(before, now, app_id, title, 0);
            },
            TrackerOp::Pause { now } => {
                lemma_recorded_id_is_row_of_inserted_session(before, now, Seq::empty(), Seq::empty(), 0);
            },
            TrackerOp::Resume { now } => {
            },
            TrackerOp::Heartbeat { now } => {
                lemma_recorded_id_is_row_of_inserted_session(before, now, Seq::empty(), Seq::empty(), 0);
            },
            TrackerOp::Flush { now } => {
                lemma_recorded_id_is_row_of_inserted_session(before, now, Seq::empty(), Seq::empty(), 0);
            },
            TrackerOp::RecordInsertedId { id } => {
            },
        }
    }
}

/// Over any run of calls on a new tracker in which ids are handed back
/// only when awaited: if the session has a row `id`, then `id` was handed
/// back right after a call that answered with the insert of that very
/// session (same application, title and start). With
/// `lemma_session_with_row_is_only_updated`, each session is inserted at
/// most once, and later writes for it update that row.
pub proof fn lemma_row_id_comes_from_insert_of_session(ops: Seq<TrackerOp>)
    requires
        ids_handed_back_when_awaited(new_tracker(), ops),
    ensures
        run_ops(new_tracker(), ops).session matches Some(s) ==> (s.db_id matches Some(id)
            ==> exists|k: int|
            0 < k < ops.len() && #[trigger] ops[k] == (TrackerOp::RecordInsertedId { id }) && (
            write_of_call(new_tracker(), ops, k - 1) matches StoreActionView::InsertInterval {
                app_id: a,
                title: b,
                started_at: st,
                remember_id: true,
                ..
            } && a == s.app_id && b == s.title && st == s.started_at)),
    decreases ops.len(),
{
    if ops.len() > 0 {
        let n = ops.len() - 1;
        let prefix = ops.drop_last();
        let op = ops.last();
        assert(ops.take(n) =~= prefix);
        assert(ids_handed_back_when_awaited(new_tracker(), prefix)) by {
            assert forall|k: int|
                0 <= k < prefix.len() && (#[trigger] prefix[k] is RecordInsertedId) implies run_ops(
                new_tracker(),
                prefix.take(k),
            ).awaiting_id by {
                assert(ops[k] == prefix[k]);
                assert(ops.take(k) =~= prefix.take(k));
            }
        }
        let before = run_ops(new_tracker(), prefix);
        let after = run_ops(new_tracker(), ops);
        assert(after == op_step(before, op).0);
        if after.session is Some && after.session.unwrap().db_id is Some {
            let s = after.session.unwrap();
            let id = s.db_id.unwrap();
            match op {
                TrackerOp::RecordInsertedId { id: handed } => {
                    assert(ops[n] is RecordInsertedId);
                    assert(before.awaiting_id);
                    lemma_awaited_id_follows_insert(prefix);
                    assert(handed == id);
                    assert(prefix.take(n - 1) =~= ops.take(n - 1));
                    assert(prefix[n - 1] == ops[n - 1]);
                    assert(write_of_call(new_tracker(), ops, n - 1) == write_of_call(
                        new_tracker(),
                        prefix,
                        prefix.len() - 1,
                    ));
                    assert(ops[n] == (TrackerOp::RecordInsertedId { id }));
                },
                _ => {
                    lemma_only_recording_gives_a_row(before, op);
                    lemma_row_id_comes_from_insert_of_session(prefix);
                    let s0 = before.session.unwrap();
                    let k = choose|k: int|
                        0 < k < prefix.len() && #[trigger] prefix[k] == (
                        TrackerOp::RecordInsertedId { id }) && (write_of_call(
                            new_tracker(),
                            prefix,
                            k - 1,
                        ) matches StoreActionView::InsertInterval {
                            app_id: a,
                            title: b,
                            started_at: st,
                            remember_id: true,
                            ..
                        } && a == s0.app_id && b == s0.title && st == s0.started_at);
                    assert(ops[k] == prefix[k]);
                    assert(ops[k - 1] == prefix[k - 1]);
                    assert(ops.take(k - 1) =~= prefix.take(k - 1));
                    assert(write_of_call(new_tracker(), ops, k - 1) == write_of_call(
                        new_tracker(),
                        prefix,
                        k - 1,
                    ));
                },
            }
        }
    } else {
        assert(run_ops(new_tracker(), ops) == new_tracker());
    }
}

} // verus!
