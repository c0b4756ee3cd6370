//! Mission state of the flight-management daemon and its transitions:
//! loading a mission, line status updates and deletions (keeping the
//! active-line index consistent), line selection by a client, the bounded
//! sensor-trigger log, and the cursor of the simulated telemetry walk.
//!
//! The daemon's channels, database pool and HTTP plumbing live outside the
//! library; they call these transitions under the state lock and then
//! broadcast the resulting status. Floating-point quantities (completion
//! percentages, trigger positions) are carried as IEEE-754 bit patterns.

use vstd::prelude::*;
use vstd::string::*;
use std::collections::VecDeque;
use crate::network::errors::ServerError;
use crate::chars::{contains_at, contains_str};

verus! {

/// Maximum number of trigger events kept in memory; the oldest is dropped
/// first.
pub const TRIGGER_LOG_CAPACITY: usize = 10000;

/// Bit pattern of the `f64` value `100.0` (a completed line).
pub const COMPLETE_PCT_BITS: u64 = 0x4059_0000_0000_0000;

/// Progress of one flight line.
#[derive(Clone, Copy, Debug, PartialEq, Eq, Structural)]
pub struct LineStatus {
    /// Bit pattern of the completion percentage (`f64::to_bits`).
    pub completion_pct_bits: u64,
    pub is_active: bool,
}

/// The status broadcast to every client: active line, per-line progress
/// and the number of recorded triggers.
pub struct SystemStatus {
    pub active_line_index: Option<usize>,
    pub line_statuses: Vec<LineStatus>,
    pub trigger_count: u32,
}

/// A sensor trigger event; the position is carried as `f64` bit patterns.
#[derive(Clone, Copy, Debug, PartialEq, Eq, Structural)]
pub struct TriggerEvent {
    pub timestamp_ms: u64,
    pub line_index: usize,
    pub waypoint_index: usize,
    pub lat_bits: u64,
    pub lon_bits: u64,
    pub alt_bits: u64,
}

/// Mission state of the daemon. `L` is the flight-line type of the plan.
pub struct FmsState<L> {
    /// Lines of the loaded flight plan; `None` while no mission is loaded.
    pub flight_lines: Option<Vec<L>>,
    pub mission_id: Option<u64>,
    pub mission_counter: u64,
    pub trigger_log: VecDeque<TriggerEvent>,
    pub last_status: SystemStatus,
}

/// The trigger log after recording `event` in `log`.
pub open spec fn record_step(log: Seq<TriggerEvent>, event: TriggerEvent) -> Seq<TriggerEvent> {
    (if log.len() >= TRIGGER_LOG_CAPACITY {
        log.drop_first()
    } else {
        log
    }).push(event)
}

/// The trigger log after recording `events`, in order, starting from `log`.
pub open spec fn record_all(log: Seq<TriggerEvent>, events: Seq<TriggerEvent>) -> Seq<TriggerEvent>
    decreases events.len(),
{
    if events.len() == 0 {
        log
    } else {
        record_step(record_all(log, events.drop_last()), events.last())
    }
}

/// Whether the `is_active` flags mark exactly the line `active`.
pub open spec fn flags_follow(statuses: Seq<LineStatus>, active: Option<usize>) -> bool {
    forall|i: int| 0 <= i < statuses.len() ==> #[trigger] statuses[i].is_active == (active == Some(
        i as usize,
    ))
}

/// Whether `after` keeps the completion of `before` line by line and has
/// its flags marking exactly `active`.
pub open spec fn reflagged(before: Seq<LineStatus>, after: Seq<LineStatus>, active: Option<usize>) -> bool {
    &&& after.len() == before.len()
    &&& forall|i: int| 0 <= i < after.len() ==> #[trigger] after[i].completion_pct_bits
        == before[i].completion_pct_bits
    &&& flags_follow(after, active)
}

/// The active-line index after line `removed` is deleted.
pub open spec fn active_after_delete(active: Option<usize>, removed: usize) -> Option<usize> {
    match active {
        Some(a) => if a == removed {
            None
        } else if a > removed {
            Some((a - 1) as usize)
        } else {
            Some(a)
        },
        None => None,
    }
}

/// Set the `is_active` flag of every line to whether it is `active`.
fn set_active_flags(statuses: &mut Vec<LineStatus>, active: Option<usize>)
    ensures
        reflagged(old(statuses)@, final(statuses)@, active),
{
    let mut i: usize = 0;
    while i < statuses.len()
        invariant
            i <= statuses@.len(),
            statuses@.len() == old(statuses)@.len(),
            forall|k: int| 0 <= k < statuses@.len() ==> #[trigger] statuses@[k].completion_pct_bits
                == old(statuses)@[k].completion_pct_bits,
            forall|k: int| 0 <= k < i ==> #[trigger] statuses@[k].is_active == (active == Some(
                k as usize,
            )),
        decreases statuses@.len() - i,
    {
        let mut ls = statuses[i];
        ls.is_active = match active {
            Some(a) => a == i,
            None => false,
        };
        statuses.set(i, ls);
        i = i + 1;
    }
}

impl<L> FmsState<L> {
    /// Whether the trigger log is within its capacity.
    pub open spec fn log_within_capacity(&self) -> bool {
        self.trigger_log@.len() <= TRIGGER_LOG_CAPACITY
    }

    /// The state of a daemon that has not loaded a mission.
    pub fn new() -> (s: Self)
        ensures
            s.flight_lines is None,
            s.mission_id is None,
            s.mission_counter == 0,
            s.trigger_log@.len() == 0,
            s.last_status.active_line_index is None,
            s.last_status.line_statuses@.len() == 0,
            s.last_status.trigger_count == 0,
    {
        FmsState {
            flight_lines: None,
            mission_id: None,
            mission_counter: 0,
            trigger_log: VecDeque::new(),
            last_status: SystemStatus {
                active_line_index: None,
                line_statuses: Vec::new(),
                trigger_count: 0,
            },
        }
    }

    /// Record a sensor trigger event in the bounded log (the oldest event
    /// is dropped once the log is full) and update the trigger count.
    pub fn record_trigger(&mut self, event: TriggerEvent)
        ensures
            final(self).trigger_log@ == record_step(old(self).trigger_log@, event),
            old(self).log_within_capacity() ==> final(self).log_within_capacity(),
            final(self).last_status.trigger_count == final(self).trigger_log@.len() as u32,
            final(self).last_status.active_line_index == old(self).last_status.active_line_index,
            final(self).last_status.line_statuses@ == old(self).last_status.line_statuses@,
            final(self).flight_lines == old(self).flight_lines,
            final(self).mission_id == old(self).mission_id,
            final(self).mission_counter == old(self).mission_counter,
    {
        if self.trigger_log.len() >= TRIGGER_LOG_CAPACITY {
            let _ = self.trigger_log.pop_front();
            assert(self.trigger_log@ =~= old(self).trigger_log@.drop_first());
        }
        self.trigger_log.push_back(event);
        let n = self.trigger_log.len();
        self.last_status.trigger_count = n as u32;
    }

    /// Check that `id` names the loaded mission.
    pub fn validate_mission_id(&self, id: u64) -> (r: Result<(), ServerError>)
        ensures
            r is Ok <==> self.mission_id == Some(id),
            r is Err ==> r == Err::<(), ServerError>(ServerError::MissionNotFound(id)),
    {
        match self.mission_id {
            Some(mid) => if mid == id {
                Ok(())
            } else {
                Err(ServerError::MissionNotFound(id))
            },
            None => Err(ServerError::MissionNotFound(id)),
        }
    }

    /// Identity of the loaded mission: its id and number of lines.
    pub fn mission_identity(&self) -> (r: Result<(u64, usize), ServerError>)
        ensures
            match (self.flight_lines, self.mission_id) {
                (Some(lines), Some(id)) => r == Ok::<(u64, usize), ServerError>((id, lines@.len() as usize)),
                _ => r == Err::<(u64, usize), ServerError>(ServerError::NoMission),
            },
    {
        match (&self.flight_lines, self.mission_id) {
            (Some(lines), Some(id)) => Ok((id, lines.len())),
            _ => Err(ServerError::NoMission),
        }
    }

    /// Install a newly generated plan as the current mission: assign the
    /// next mission id, clear the trigger log and reset every line's
    /// status to not started and inactive. Returns the new id.
    pub fn load_mission(&mut self, lines: Vec<L>) -> (id: u64)
        requires
            old(self).mission_counter < u64::MAX,
        ensures
            id == old(self).mission_counter + 1,
            final(self).mission_counter == id,
            final(self).mission_id == Some(id),
            final(self).flight_lines == Some(lines),
            final(self).trigger_log@.len() == 0,
            final(self).last_status.line_statuses@ == Seq::new(
                lines@.len(),
                |i: int| LineStatus { completion_pct_bits: 0, is_active: false },
            ),
            final(self).last_status.active_line_index == old(self).last_status.active_line_index,
            final(self).last_status.trigger_count == old(self).last_status.trigger_count,
    {
        let n = lines.len();
        let ghost lv = lines@;
        self.flight_lines = Some(lines);
        self.mission_counter = self.mission_counter + 1;
        self.mission_id = Some(self.mission_counter);
        self.trigger_log.clear();
        let mut statuses: Vec<LineStatus> = Vec::new();
        let mut i: usize = 0;
        while i < n
            invariant
                i <= n,
                statuses@ == Seq::new(
                    i as nat,
                    |k: int| LineStatus { completion_pct_bits: 0, is_active: false },
                ),
            decreases n - i,
        {
            statuses.push(LineStatus { completion_pct_bits: 0, is_active: false });
            i = i + 1;
            assert(statuses@ =~= Seq::new(
                i as nat,
                |k: int| LineStatus { completion_pct_bits: 0, is_active: false },
            ));
        }
        self.last_status.line_statuses = statuses;
        self.mission_counter
    }

    /// Replace the status of line `line_id` of mission `id`.
    pub fn update_line(&mut self, id: u64, line_id: usize, status: LineStatus) -> (r: Result<
        (),
        ServerError,
    >)
        ensures
            old(self).mission_id != Some(id) ==> r == Err::<(), ServerError>(
                ServerError::MissionNotFound(id),
            ),
            old(self).mission_id == Some(id) && old(self).flight_lines is None ==> r == Err::<
                (),
                ServerError,
            >(ServerError::NoMission),
            old(self).mission_id == Some(id) && old(self).flight_lines is Some && line_id
                >= old(self).last_status.line_statuses@.len() ==> r == Err::<(), ServerError>(
                ServerError::LineNotFound(line_id),
            ),
            r is Ok <==> old(self).mission_id == Some(id) && old(self).flight_lines is Some && line_id
                < old(self).last_status.line_statuses@.len(),
            r is Ok ==> final(self).last_status.line_statuses@ == old(
                self,
            ).last_status.line_statuses@.update(line_id as int, status),
            r is Err ==> final(self).last_status.line_statuses@ == old(
                self,
            ).last_status.line_statuses@,
            final(self).last_status.active_line_index == old(self).last_status.active_line_index,
            final(self).last_status.trigger_count == old(self).last_status.trigger_count,
            final(self).flight_lines == old(self).flight_lines,
            final(self).mission_id == old(self).mission_id,
            final(self).mission_counter == old(self).mission_counter,
            final(self).trigger_log@ == old(self).trigger_log@,
    {
        match self.validate_mission_id(id) {
            Ok(()) => {},
            Err(e) => return Err(e),
        }
        if self.flight_lines.is_none() {
            return Err(ServerError::NoMission);
        }
        if line_id >= self.last_status.line_statuses.len() {
            return Err(ServerError::LineNotFound(line_id));
        }
        self.last_status.line_statuses.set(line_id, status);
        Ok(())
    }

    /// Remove line `line_id` from mission `id`, keeping in-flight guidance
    /// consistent: if the deleted line is the active one no line is active
    /// afterwards; if it comes before the active line the active index
    /// moves down by one; if it comes after, the active index is kept. The
    /// line's status entry is removed and every `is_active` flag is reset
    /// to match the new active index.
    pub fn delete_line(&mut self, id: u64, line_id: usize) -> (r: Result<(), ServerError>)
        ensures
            old(self).mission_id != Some(id) ==> r == Err::<(), ServerError>(
                ServerError::MissionNotFound(id),
            ),
            old(self).mission_id == Some(id) && old(self).flight_lines is None ==> r == Err::<
                (),
                ServerError,
            >(ServerError::NoMission),
            old(self).mission_id == Some(id) && old(self).flight_lines is Some && line_id
                >= old(self).flight_lines->0@.len() ==> r == Err::<(), ServerError>(
                ServerError::LineNotFound(line_id),
            ),
            r is Ok <==> old(self).mission_id == Some(id) && old(self).flight_lines is Some && line_id
                < old(self).flight_lines->0@.len(),
            r is Ok ==> {
                &&& final(self).flight_lines is Some
                &&& final(self).flight_lines->0@ == old(self).flight_lines->0@.remove(
                    line_id as int,
                )
                &&& final(self).last_status.active_line_index == active_after_delete(
                    old(self).last_status.active_line_index,
                    line_id,
                )
                &&& reflagged(
                    if line_id < old(self).last_status.line_statuses@.len() {
                        old(self).last_status.line_statuses@.remove(line_id as int)
                    } else {
                        old(self).last_status.line_statuses@
                    },
                    final(self).last_status.line_statuses@,
                    final(self).last_status.active_line_index,
                )
            },
            r is Err ==> {
                &&& final(self).flight_lines == old(self).flight_lines
                &&& final(self).last_status.active_line_index == old(
                    self,
                ).last_status.active_line_index
                &&& final(self).last_status.line_statuses@ == old(self).last_status.line_statuses@
            },
            final(self).last_status.trigger_count == old(self).last_status.trigger_count,
            final(self).mission_id == old(self).mission_id,
            final(self).mission_counter == old(self).mission_counter,
            final(self).trigger_log@ == old(self).trigger_log@,
    {
        match self.validate_mission_id(id) {
            Ok(()) => {},
            Err(e) => return Err(e),
        }
        let mut lines = match self.flight_lines.take() {
            Some(lines) => lines,
            None => return Err(ServerError::NoMission),
        };
        if line_id >= lines.len() {
            self.flight_lines = Some(lines);
            return Err(ServerError::LineNotFound(line_id));
        }
        lines.remove(line_id);
        self.flight_lines = Some(lines);
        let new_active = match self.last_status.active_line_index {
            Some(a) => if a == line_id {
                None
            } else if a > line_id {
                Some(a - 1)
            } else {
                Some(a)
            },
            None => None,
        };
        self.last_status.active_line_index = new_active;
        if line_id < self.last_status.line_statuses.len() {
            self.last_status.line_statuses.remove(line_id);
        }
        set_active_flags(&mut self.last_status.line_statuses, new_active);
        Ok(())
    }

    /// A client selected line `index` as the active line: mark it active
    /// and every other line inactive.
    pub fn select_line(&mut self, index: usize)
        ensures
            final(self).last_status.active_line_index == Some(index),
            reflagged(
                old(self).last_status.line_statuses@,
                final(self).last_status.line_statuses@,
                Some(index),
            ),
            final(self).last_status.trigger_count == old(self).last_status.trigger_count,
            final(self).flight_lines == old(self).flight_lines,
            final(self).mission_id == old(self).mission_id,
            final(self).mission_counter == old(self).mission_counter,
            final(self).trigger_log@ == old(self).trigger_log@,
    {
        self.last_status.active_line_index = Some(index);
        set_active_flags(&mut self.last_status.line_statuses, Some(index));
    }

    /// Progress update of the simulated walk: the line it left (if any) is
    /// complete and inactive, the line it is on is active with the given
    /// completion, and becomes the active line. Other lines are untouched.
    pub fn apply_mock_progress(
        &mut self,
        finished_line: Option<usize>,
        line_index: usize,
        completion_pct_bits: u64,
    )
        ensures
            final(self).last_status.active_line_index == Some(line_index),
            final(self).last_status.line_statuses@ == mock_progress(
                old(self).last_status.line_statuses@,
                finished_line,
                line_index,
                completion_pct_bits,
            ),
            final(self).last_status.trigger_count == old(self).last_status.trigger_count,
            final(self).flight_lines == old(self).flight_lines,
            final(self).mission_id == old(self).mission_id,
            final(self).mission_counter == old(self).mission_counter,
            final(self).trigger_log@ == old(self).trigger_log@,
    {
        if let Some(p) = finished_line {
            if p < self.last_status.line_statuses.len() {
                self.last_status.line_statuses.set(
                    p,
                    LineStatus { completion_pct_bits: COMPLETE_PCT_BITS, is_active: false },
                );
            }
        }
        if line_index < self.last_status.line_statuses.len() {
            self.last_status.line_statuses.set(
                line_index,
                LineStatus { completion_pct_bits: completion_pct_bits, is_active: true },
            );
        }
        self.last_status.active_line_index = Some(line_index);
    }
}

/// Line statuses after a step of the simulated walk.
pub open spec fn mock_progress(
    statuses: Seq<LineStatus>,
    finished_line: Option<usize>,
    line_index: usize,
    completion_pct_bits: u64,
) -> Seq<LineStatus> {
    let s1 = match finished_line {
        Some(p) => if p < statuses.len() {
            statuses.update(p as int, LineStatus { completion_pct_bits: COMPLETE_PCT_BITS, is_active: false })
        } else {
            statuses
        },
        None => statuses,
    };
    if line_index < s1.len() {
        s1.update(line_index as int, LineStatus { completion_pct_bits, is_active: true })
    } else {
        s1
    }
}

/// The trigger log never grows past its capacity: recording an event in
/// a log within capacity leaves it within capacity.
pub proof fn law_trigger_log_bounded(log: Seq<TriggerEvent>, event: TriggerEvent)
    requires
        log.len() <= TRIGGER_LOG_CAPACITY,
    ensures
        record_step(log, event).len() <= TRIGGER_LOG_CAPACITY,
        record_step(log, event).last() == event,
{
}

/// Recording a sequence of events into an empty log keeps exactly the
/// most recent ones: all of them while they fit, otherwise the last
/// `TRIGGER_LOG_CAPACITY`, in the order they were recorded.
pub proof fn law_trigger_log_keeps_latest(events: Seq<TriggerEvent>)
    ensures
        record_all(Seq::empty(), events) == events.skip(
            if events.len() > TRIGGER_LOG_CAPACITY {
                events.len() - TRIGGER_LOG_CAPACITY
            } else {
                0
            },
        ),
    decreases events.len(),
{
    if events.len() > 0 {
        let prev = events.drop_last();
        law_trigger_log_keeps_latest(prev);
        let k: int = if prev.len() > TRIGGER_LOG_CAPACITY {
            prev.len() - TRIGGER_LOG_CAPACITY
        } else {
            0
        };
        let log = record_all(Seq::empty(), prev);
        assert(log == prev.skip(k));
        if log.len() >= TRIGGER_LOG_CAPACITY {
            assert(log.drop_first().push(events.last()) =~= events.skip(k + 1));
        } else {
            assert(log.push(events.last()) =~= events.skip(0));
        }
    } else {
        assert(events.skip(0) =~= events);
    }
}

/// Deleting a line keeps guidance on the same line: when another line
/// was active, the adjusted index names that same line in the shortened
/// plan; when the active line itself is deleted, no line is active.
pub proof fn law_delete_keeps_active_line<L>(lines: Seq<L>, active: usize, removed: usize)
    requires
        active < lines.len(),
        removed < lines.len(),
    ensures
        active == removed ==> active_after_delete(Some(active), removed) is None,
        active != removed ==> {
            let a = active_after_delete(Some(active), removed);
            &&& a is Some
            &&& a->0 < lines.len() - 1
            &&& lines.remove(removed as int)[a->0 as int] == lines[active as int]
        },
{
}

/// Cursor of the simulated telemetry walk through the plan's waypoints.
pub struct MockCursor {
    pub line_idx: usize,
    pub waypoint_idx: usize,
    pub prev_line_idx: Option<usize>,
}

/// What one tick of the simulated walk does.
#[derive(Clone, Copy, Debug, PartialEq, Eq, Structural)]
pub enum MockStep {
    /// No plan or an empty plan: nothing to do.
    Idle,
    /// The current line is exhausted: moved to the start of the next.
    NextLine,
    /// Emit telemetry and a trigger at this waypoint; `finished_line` is
    /// the line just left, if the walk changed line.
    Emit { line_index: usize, waypoint_index: usize, finished_line: Option<usize> },
}

/// The step of the walk from cursor `(line, waypoint, prev)` over lines of
/// the given lengths, and the cursor after it.
pub open spec fn spec_mock_step(
    line: usize,
    waypoint: usize,
    prev: Option<usize>,
    lengths: Seq<usize>,
) -> (MockStep, (usize, usize, Option<usize>)) {
    if lengths.len() == 0 {
        (MockStep::Idle, (line, waypoint, prev))
    } else {
        let (l, w) = if line >= lengths.len() {
            (0usize, 0usize)
        } else {
            (line, waypoint)
        };
        if w >= lengths[l as int] {
            (MockStep::NextLine, ((l + 1) as usize, 0usize, prev))
        } else {
            (
                MockStep::Emit {
                    line_index: l,
                    waypoint_index: w,
                    finished_line: match prev {
                        Some(p) => if p != l {
                            Some(p)
                        } else {
                            None
                        },
                        None => None,
                    },
                },
                (l, (w + 1) as usize, Some(l)),
            )
        }
    }
}

impl MockCursor {
    /// The cursor at the start of the first line.
    pub fn new() -> (c: Self)
        ensures
            c.line_idx == 0,
            c.waypoint_idx == 0,
            c.prev_line_idx is None,
    {
        MockCursor { line_idx: 0, waypoint_idx: 0, prev_line_idx: None }
    }

    /// One tick of the walk over lines with the given numbers of
    /// waypoints: wrap to the first line after the last, move to the next
    /// line when the current one is exhausted, otherwise emit the current
    /// waypoint and advance to the next one.
    pub fn step(&mut self, line_lengths: &Vec<usize>) -> (s: MockStep)
        ensures
            (s, (final(self).line_idx, final(self).waypoint_idx, final(self).prev_line_idx))
                == spec_mock_step(
                old(self).line_idx,
                old(self).waypoint_idx,
                old(self).prev_line_idx,
                line_lengths@,
            ),
    {
        let n = line_lengths.len();
        if n == 0 {
            return MockStep::Idle;
        }
        if self.line_idx >= n {
            self.line_idx = 0;
            self.waypoint_idx = 0;
        }
        let l = self.line_idx;
        let w = self.waypoint_idx;
        if w >= line_lengths[l] {
            self.line_idx = l + 1;
            self.waypoint_idx = 0;
            return MockStep::NextLine;
        }
        let finished = match self.prev_line_idx {
            Some(p) => if p != l {
                Some(p)
            } else {
                None
            },
            None => None,
        };
        self.prev_line_idx = Some(l);
        self.waypoint_idx = w + 1;
        MockStep::Emit { line_index: l, waypoint_index: w, finished_line: finished }
    }
}

/// The cursor after `t` ticks of the walk from `c` over lines of the
/// given lengths.
pub open spec fn cursor_after(
    c: (usize, usize, Option<usize>),
    lengths: Seq<usize>,
    t: nat,
) -> (usize, usize, Option<usize>)
    decreases t,
{
    if t == 0 {
        c
    } else {
        let p = cursor_after(c, lengths, (t - 1) as nat);
        spec_mock_step(p.0, p.1, p.2, lengths).1
    }
}

/// The step taken from cursor `c`.
pub open spec fn step_from(c: (usize, usize, Option<usize>), lengths: Seq<usize>) -> MockStep {
    spec_mock_step(c.0, c.1, c.2, lengths).0
}

/// The walk flies a line's waypoints in order, one per tick: from
/// waypoint `w` of line `l`, the `m`-th tick after emits waypoint `w + m`
/// of the same line while the line lasts, and only the first of them can
/// report a line left behind.
pub proof fn law_mock_walk_flies_line_in_order(
    l: usize,
    w: usize,
    prev: Option<usize>,
    lengths: Seq<usize>,
    m: nat,
)
    requires
        l < lengths.len(),
        w + m < lengths[l as int],
    ensures
        m > 0 ==> cursor_after((l, w, prev), lengths, m) == (l, (w + m) as usize, Some(l)),
        step_from(cursor_after((l, w, prev), lengths, m), lengths) matches MockStep::Emit {
            line_index,
            waypoint_index,
            finished_line,
        } && line_index == l && waypoint_index == w + m && (m > 0 ==> finished_line is None),
    decreases m,
{
    if m > 0 {
        law_mock_walk_flies_line_in_order(l, w, prev, lengths, (m - 1) as nat);
    }
}

/// After the last waypoint of line `l` the walk moves on: one tick goes to
/// the start of the next line, and the tick after emits that line's first
/// waypoint, reporting line `l` as finished; after the last line the walk
/// starts again from the first.
pub proof fn law_mock_walk_moves_to_next_line(l: usize, lengths: Seq<usize>)
    requires
        l < lengths.len() <= usize::MAX,
        lengths[l as int] > 0,
        lengths[((l + 1) % (lengths.len() as int))] > 0,
    ensures
        ({
            let c0 = (l, lengths[l as int], Some(l));
            let next = ((l + 1) % (lengths.len() as int)) as usize;
            &&& step_from(c0, lengths) == MockStep::NextLine
            &&& cursor_after(c0, lengths, 1) == ((l + 1) as usize, 0usize, Some(l))
            &&& step_from(cursor_after(c0, lengths, 1), lengths) == (MockStep::Emit {
                line_index: next,
                waypoint_index: 0,
                finished_line: if next == l { None } else { Some(l) },
            })
        }),
{
    let c0 = (l, lengths[l as int], Some(l));
    assert(cursor_after(c0, lengths, 0) == c0);
    assert(cursor_after(c0, lengths, 1) == spec_mock_step(c0.0, c0.1, c0.2, lengths).1);
    let n = lengths.len() as int;
    let k = l + 1;
    if k < n {
        assert(k % n == k) by (nonlinear_arith)
            requires
                0 <= k < n,
        ;
    } else {
        assert(k % n == 0) by (nonlinear_arith)
            requires
                k == n,
                n > 0,
        ;
    }
}

/// Whether a database error text reports lock contention (`SQLITE_BUSY`).
/// The daemon never retries such a write: lock contention is treated as a
/// fatal architectural violation and logged as an error.
pub fn is_busy_error(message: &str) -> (b: bool)
    ensures
        b == (contains_at(message@, "SQLITE_BUSY"@) || contains_at(message@, "database is locked"@)),
{
    contains_str(message, "SQLITE_BUSY") || contains_str(message, "database is locked")
}

/// Default sensor of a mission request.
pub fn default_sensor() -> (s: String)
    ensures
        s@ == "phantom4pro"@,
{
    String::from_str("phantom4pro")
}

/// Default mission type of a mission request (photogrammetry).
pub fn default_mission_type() -> (s: String)
    ensures
        s@ == "camera"@,
{
    String::from_str("camera")
}

/// Default planning mode of a mission request (area coverage).
pub fn default_mode() -> (s: String)
    ensures
        s@ == "area"@,
{
    String::from_str("area")
}

/// Default altitude datum name of a mission request.
pub fn default_datum() -> (s: String)
    ensures
        s@ == "egm2008"@,
{
    String::from_str("egm2008")
}

} // verus!
