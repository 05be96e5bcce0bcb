//! The scheduler engine's decision core.
//!
//! The engine owns one slot per schedule: the definition and its runtime
//! state.  The asynchronous shell outside the library performs the waiting,
//! the playing and the persistence, and routes every decision through the
//! functions here: the lifecycle operations on the slot table, the
//! per-iteration task plan, and the status and upcoming-execution views.

use vstd::prelude::*;
use crate::errors::SchedulerError;
use crate::models::{PlaybackStatus, RepeatRule, RepeatType, Schedule, UpdateScheduleInput};
use crate::settings::SettingsSnapshot;
use crate::text::str_eq;
use crate::time::valid_instant;
use crate::time_calculator::{next_execution_spec, next_execution_time, valid_last_run};

verus! {

/// Where a schedule task stands.
#[derive(Clone, Copy, Debug, PartialEq, Eq, Structural)]
pub enum ScheduleStatus {
    Idle,
    Waiting,
    Running,
    Disabled,
    Error,
    Stopped,
}

impl Default for ScheduleStatus {
    /// A task starts idle.
    fn default() -> (s: Self)
        ensures
            s == ScheduleStatus::Idle,
    {
        ScheduleStatus::Idle
    }
}

/// The runtime state of one schedule task.
#[derive(Debug)]
pub struct ScheduleRuntimeState {
    /// The published next fire instant, while waiting.
    pub next_run: Option<i64>,
    /// When the schedule last fired.
    pub last_run: Option<i64>,
    /// Where the task stands.
    pub status: ScheduleStatus,
    /// The message of the last failure, if any.
    pub last_error: Option<String>,
}

/// The state a freshly spawned task starts in.
pub open spec fn initial_runtime_state() -> ScheduleRuntimeState {
    ScheduleRuntimeState { next_run: None, last_run: None, status: ScheduleStatus::Idle, last_error: None }
}

impl Clone for ScheduleRuntimeState {
    /// A clone denotes the same state.
    fn clone(&self) -> (r: Self)
        ensures
            r == *self,
    {
        ScheduleRuntimeState {
            next_run: self.next_run,
            last_run: self.last_run,
            status: self.status,
            last_error: self.last_error.clone(),
        }
    }
}

impl ScheduleRuntimeState {
    /// The state a freshly spawned task starts in.
    pub fn new() -> (s: Self)
        ensures
            s == initial_runtime_state(),
    {
        ScheduleRuntimeState {
            next_run: None,
            last_run: None,
            status: ScheduleStatus::Idle,
            last_error: None,
        }
    }
}

/// One schedule's row in the status view.
#[derive(Debug)]
pub struct ScheduleRuntimeInfo {
    pub id: String,
    pub name: String,
    pub repeat_type: RepeatType,
    pub enabled: bool,
    pub next_run: Option<i64>,
    pub last_run: Option<i64>,
    pub status: ScheduleStatus,
    pub last_error: Option<String>,
}

/// The engine's aggregate status view.
#[derive(Debug)]
pub struct SchedulerStatus {
    pub is_running: bool,
    pub total_schedules: usize,
    pub schedules: Vec<ScheduleRuntimeInfo>,
}

/// One pending fire in the upcoming-executions view.
#[derive(Debug)]
pub struct UpcomingExecution {
    pub schedule_id: String,
    pub name: String,
    pub scheduled_for: i64,
    pub repeat_type: RepeatType,
}

/// The mathematical value of an upcoming entry, with the recurrence rule
/// abstracted.
#[verifier::ext_equal]
pub struct UpcomingView {
    pub schedule_id: String,
    pub name: String,
    pub scheduled_for: i64,
    pub repeat_type: RepeatRule,
}

impl View for UpcomingExecution {
    type V = UpcomingView;

    open spec fn view(&self) -> UpcomingView {
        UpcomingView {
            schedule_id: self.schedule_id,
            name: self.name,
            scheduled_for: self.scheduled_for,
            repeat_type: self.repeat_type@,
        }
    }
}

/// One tracked schedule: its definition and its runtime state.
#[derive(Debug)]
pub struct ScheduleSlot {
    pub schedule: Schedule,
    pub state: ScheduleRuntimeState,
}

/// The engine: whether it runs, and one slot per tracked schedule.
#[derive(Debug)]
pub struct SchedulerEngine {
    pub running: bool,
    pub slots: Vec<ScheduleSlot>,
}

/// The upcoming entries a slot table announces: one per slot with a
/// published next fire instant, in table order.
pub open spec fn upcoming_views(slots: Seq<ScheduleSlot>) -> Seq<UpcomingView>
    decreases slots.len(),
{
    if slots.len() == 0 {
        Seq::empty()
    } else {
        upcoming_views(slots.drop_last()) + (match slots.last().state.next_run {
            Some(t) => seq![
                UpcomingView {
                    schedule_id: slots.last().schedule.id,
                    name: slots.last().schedule.name,
                    scheduled_for: t,
                    repeat_type: slots.last().schedule.repeat_type@,
                },
            ],
            None => Seq::empty(),
        })
    }
}

/// Ascending by fire instant.
pub open spec fn sorted_views(s: Seq<UpcomingView>) -> bool {
    forall|i: int, j: int| 0 <= i <= j < s.len() ==> s[i].scheduled_for <= s[j].scheduled_for
}

impl SchedulerEngine {
    /// A stopped engine with no tracked schedules.
    pub fn new() -> (e: Self)
        ensures
            !e.running,
            e.slots@.len() == 0,
    {
        SchedulerEngine { running: false, slots: Vec::new() }
    }

    /// Starts the engine on the given schedules: one fresh slot per
    /// schedule.  Fails, changing nothing, when it already runs.
    pub fn start(&mut self, schedules: Vec<Schedule>) -> (r: Result<(), SchedulerError>)
        ensures
            old(self).running ==> (r matches Err(SchedulerError::AlreadyRunning))
                && *final(self) == *old(self),
            !old(self).running ==> {
                &&& r is Ok
                &&& final(self).running
                &&& final(self).slots@.len() == schedules@.len()
                &&& forall|i: int|
                    0 <= i < schedules@.len() ==> (#[trigger] final(self).slots@[i]).schedule
                        == schedules@[i] && final(self).slots@[i].state
                        == initial_runtime_state()
            },
    {
        if self.running {
            return Err(SchedulerError::AlreadyRunning);
        }
        let ghost orig = schedules@;
        let mut rest = schedules;
        let mut slots: Vec<ScheduleSlot> = Vec::new();
        while rest.len() > 0
            invariant
                slots@.len() + rest@.len() == orig.len(),
                rest@ == orig.subrange(slots@.len() as int, orig.len() as int),
                forall|i: int|
                    0 <= i < slots@.len() ==> (#[trigger] slots@[i]).schedule == orig[i]
                        && slots@[i].state == initial_runtime_state(),
            decreases rest@.len(),
        {
            let s = rest.remove(0);
            proof {
                assert(s == orig[slots@.len() as int]);
            }
            slots.push(ScheduleSlot { schedule: s, state: ScheduleRuntimeState::new() });
            proof {
                assert(rest@ =~= orig.subrange(slots@.len() as int, orig.len() as int));
            }
        }
        self.running = true;
        self.slots = slots;
        Ok(())
    }

    /// Stops the engine and drops every slot (the shell cancels the
    /// tasks).  Fails, changing nothing, when it is not running.
    pub fn stop(&mut self) -> (r: Result<(), SchedulerError>)
        ensures
            !old(self).running ==> (r matches Err(SchedulerError::NotRunning)) && *final(self)
                == *old(self),
            old(self).running ==> r is Ok && !final(self).running && final(self).slots@.len()
                == 0,
    {
        if !self.running {
            return Err(SchedulerError::NotRunning);
        }
        self.running = false;
        self.slots = Vec::new();
        Ok(())
    }

    /// Reloads the schedules: a running engine restarts on the new set; a
    /// stopped one only drops its slots.
    pub fn reload(&mut self, schedules: Vec<Schedule>) -> (r: Result<(), SchedulerError>)
        ensures
            r is Ok,
            old(self).running ==> {
                &&& final(self).running
                &&& final(self).slots@.len() == schedules@.len()
                &&& forall|i: int|
                    0 <= i < schedules@.len() ==> (#[trigger] final(self).slots@[i]).schedule
                        == schedules@[i] && final(self).slots@[i].state
                        == initial_runtime_state()
            },
            !old(self).running ==> !final(self).running && final(self).slots@.len() == 0,
    {
        if self.running {
            let stopped = self.stop();
            proof {
                assert(stopped is Ok);
            }
            let started = self.start(schedules);
            proof {
                assert(started is Ok);
            }
            Ok(())
        } else {
            self.slots = Vec::new();
            Ok(())
        }
    }

    /// Pauses every schedule: stops the engine without touching the
    /// persisted definitions.  Fails when it is not running.
    pub fn pause_all(&mut self) -> (r: Result<(), SchedulerError>)
        ensures
            !old(self).running ==> (r matches Err(SchedulerError::NotRunning)) && *final(self)
                == *old(self),
            old(self).running ==> r is Ok && !final(self).running && final(self).slots@.len()
                == 0,
    {
        if !self.running {
            return Err(SchedulerError::NotRunning);
        }
        self.stop()
    }

    /// Resumes the schedules: starts the engine again on the given set.
    /// Fails when it is already running.
    pub fn resume_all(&mut self, schedules: Vec<Schedule>) -> (r: Result<(), SchedulerError>)
        ensures
            old(self).running ==> (r matches Err(SchedulerError::AlreadyRunning))
                && *final(self) == *old(self),
            !old(self).running ==> {
                &&& r is Ok
                &&& final(self).running
                &&& final(self).slots@.len() == schedules@.len()
                &&& forall|i: int|
                    0 <= i < schedules@.len() ==> (#[trigger] final(self).slots@[i]).schedule
                        == schedules@[i] && final(self).slots@[i].state
                        == initial_runtime_state()
            },
    {
        if self.running {
            return Err(SchedulerError::AlreadyRunning);
        }
        self.start(schedules)
    }

    /// The aggregate status view: the running flag and one row per slot,
    /// copied from the definitions and runtime states.
    pub fn status(&self) -> (st: SchedulerStatus)
        ensures
            st.is_running == self.running,
            st.total_schedules == self.slots@.len(),
            st.schedules@.len() == self.slots@.len(),
            forall|i: int|
                0 <= i < self.slots@.len() ==> {
                    let info = #[trigger] st.schedules@[i];
                    let slot = self.slots@[i];
                    &&& info.id == slot.schedule.id
                    &&& info.name == slot.schedule.name
                    &&& info.repeat_type@ == slot.schedule.repeat_type@
                    &&& info.enabled == slot.schedule.enabled
                    &&& info.next_run == slot.state.next_run
                    &&& info.last_run == slot.state.last_run
                    &&& info.status == slot.state.status
                    &&& info.last_error == slot.state.last_error
                },
    {
        let mut rows: Vec<ScheduleRuntimeInfo> = Vec::new();
        let mut i: usize = 0;
        while i < self.slots.len()
            invariant
                0 <= i <= self.slots@.len(),
                rows@.len() == i,
                forall|k: int|
                    0 <= k < i ==> {
                        let info = #[trigger] rows@[k];
                        let slot = self.slots@[k];
                        &&& info.id == slot.schedule.id
                        &&& info.name == slot.schedule.name
                        &&& info.repeat_type@ == slot.schedule.repeat_type@
                        &&& info.enabled == slot.schedule.enabled
                        &&& info.next_run == slot.state.next_run
                        &&& info.last_run == slot.state.last_run
                        &&& info.status == slot.state.status
                        &&& info.last_error == slot.state.last_error
                    },
            decreases self.slots@.len() - i,
        {
            let slot = &self.slots[i];
            rows.push(
                ScheduleRuntimeInfo {
                    id: slot.schedule.id.clone(),
                    name: slot.schedule.name.clone(),
                    repeat_type: slot.schedule.repeat_type.clone(),
                    enabled: slot.schedule.enabled,
                    next_run: slot.state.next_run,
                    last_run: slot.state.last_run,
                    status: slot.state.status,
                    last_error: slot.state.last_error.clone(),
                },
            );
            i += 1;
        }
        SchedulerStatus {
            is_running: self.running,
            total_schedules: self.slots.len(),
            schedules: rows,
        }
    }

    /// The soonest pending fires: every slot's published next fire instant,
    /// ascending, at most `count` of them.
    pub fn upcoming_executions(&self, count: usize) -> (u: Vec<UpcomingExecution>)
        ensures
            u@.len() == (if count as int <= upcoming_views(self.slots@).len() {
                count as int
            } else {
                upcoming_views(self.slots@).len() as int
            }),
            exists|full: Seq<UpcomingView>|
                {
                    &&& #[trigger] sorted_views(full)
                    &&& full.to_multiset() == upcoming_views(self.slots@).to_multiset()
                    &&& u@.map_values(|x: UpcomingExecution| x@) == full.take(u@.len() as int)
                },
    {
        let mut collected: Vec<UpcomingExecution> = Vec::new();
        let mut i: usize = 0;
        while i < self.slots.len()
            invariant
                0 <= i <= self.slots@.len(),
                collected@.map_values(|x: UpcomingExecution| x@) == upcoming_views(
                    self.slots@.subrange(0, i as int),
                ),
            decreases self.slots@.len() - i,
        {
            let slot = &self.slots[i];
            proof {
                assert(self.slots@.subrange(0, i + 1 as int).drop_last() =~= self.slots@.subrange(
                    0,
                    i as int,
                ));
                assert(self.slots@.subrange(0, i + 1 as int).last() == self.slots@[i as int]);
            }
            match slot.state.next_run {
                Some(t) => {
                    let entry = UpcomingExecution {
                        schedule_id: slot.schedule.id.clone(),
                        name: slot.schedule.name.clone(),
                        scheduled_for: t,
                        repeat_type: slot.schedule.repeat_type.clone(),
                    };
                    collected.push(entry);
                    proof {
                        assert(collected@.map_values(|x: UpcomingExecution| x@)
                            =~= upcoming_views(self.slots@.subrange(0, i + 1 as int)));
                    }
                },
                None => {
                    proof {
                        assert(collected@.map_values(|x: UpcomingExecution| x@)
                            =~= upcoming_views(self.slots@.subrange(0, i + 1 as int)));
                    }
                },
            }
            i += 1;
        }
        proof {
            assert(self.slots@.subrange(0, self.slots@.len() as int) =~= self.slots@);
        }
        let mut sorted = sort_by_time(collected);
        let ghost full = sorted@.map_values(|x: UpcomingExecution| x@);
        let n = sorted.len();
        if count < n {
            sorted.truncate(count);
            proof {
                assert(sorted@.map_values(|x: UpcomingExecution| x@) =~= full.take(
                    sorted@.len() as int,
                ));
            }
        } else {
            proof {
                assert(sorted@.map_values(|x: UpcomingExecution| x@) =~= full.take(
                    sorted@.len() as int,
                ));
            }
        }
        sorted
    }

    /// The soonest pending fires, behind the request surface.
    pub fn get_upcoming_executions(&self, count: usize) -> (r: Result<
        Vec<UpcomingExecution>,
        SchedulerError,
    >)
        ensures
            r matches Ok(u) && u@.len() == (if count as int <= upcoming_views(
                self.slots@,
            ).len() {
                count as int
            } else {
                upcoming_views(self.slots@).len() as int
            }),
            r matches Ok(u) ==> exists|full: Seq<UpcomingView>|
                {
                    &&& #[trigger] sorted_views(full)
                    &&& full.to_multiset() == upcoming_views(self.slots@).to_multiset()
                    &&& u@.map_values(|x: UpcomingExecution| x@) == full.take(u@.len() as int)
                },
    {
        Ok(self.upcoming_executions(count))
    }
}

/// Sorts upcoming entries ascending by fire instant, keeping exactly the
/// same entries.
fn sort_by_time(items: Vec<UpcomingExecution>) -> (r: Vec<UpcomingExecution>)
    ensures
        r@.len() == items@.len(),
        sorted_views(r@.map_values(|x: UpcomingExecution| x@)),
        r@.map_values(|x: UpcomingExecution| x@).to_multiset() == items@.map_values(
            |x: UpcomingExecution| x@,
        ).to_multiset(),
{
    let ghost orig = items@.map_values(|x: UpcomingExecution| x@);
    let mut work = items;
    let mut out: Vec<UpcomingExecution> = Vec::new();
    proof {
        broadcast use vstd::seq_lib::group_to_multiset_ensures;
        broadcast use vstd::multiset::group_multiset_axioms;
        let f = |y: UpcomingExecution| y@;
        assert(out@.map_values(f) =~= Seq::<UpcomingView>::empty());
        assert(out@.map_values(f).to_multiset().add(work@.map_values(f).to_multiset())
            =~= orig.to_multiset());
    }
    while work.len() > 0
        invariant
            out@.map_values(|x: UpcomingExecution| x@).to_multiset().add(
                work@.map_values(|x: UpcomingExecution| x@).to_multiset(),
            ) == orig.to_multiset(),
            out@.len() + work@.len() == orig.len(),
            sorted_views(out@.map_values(|x: UpcomingExecution| x@)),
            forall|a: int, b: int|
                0 <= a < out@.len() && 0 <= b < work@.len() ==> (#[trigger] out@[a]).scheduled_for
                    <= (#[trigger] work@[b]).scheduled_for,
        decreases work@.len(),
    {
        let mut m: usize = 0;
        let mut j: usize = 1;
        while j < work.len()
            invariant
                0 < work@.len(),
                0 <= m < j <= work@.len() || (j <= work@.len() && m < j),
                m < work@.len(),
                forall|k: int|
                    0 <= k < j ==> (#[trigger] work@[m as int]).scheduled_for
                        <= work@[k].scheduled_for,
            decreases work@.len() - j,
        {
            if work[j].scheduled_for < work[m].scheduled_for {
                m = j;
            }
            j += 1;
        }
        let ghost old_out = out@;
        let ghost old_work = work@;
        let x = work.remove(m);
        out.push(x);
        proof {
            broadcast use vstd::seq_lib::group_to_multiset_ensures;
            broadcast use vstd::multiset::group_multiset_axioms;
            let f = |y: UpcomingExecution| y@;
            assert(work@.map_values(f) =~= old_work.map_values(f).remove(m as int));
            assert(out@.map_values(f) =~= old_out.map_values(f).push(old_work[m as int]@));
            assert(old_work.map_values(f)[m as int] == old_work[m as int]@);
            assert(work@.map_values(f).to_multiset() =~= old_work.map_values(f).to_multiset()
                .remove(old_work[m as int]@));
            assert(out@.map_values(f).to_multiset() =~= old_out.map_values(f).to_multiset()
                .insert(old_work[m as int]@));
            assert(old_work.map_values(f).to_multiset().contains(old_work[m as int]@));
            assert(out@.map_values(f).to_multiset().add(work@.map_values(f).to_multiset())
                =~= orig.to_multiset());
            assert(sorted_views(out@.map_values(f)));
        }
    }
    proof {
        broadcast use vstd::seq_lib::group_to_multiset_ensures;
        broadcast use vstd::multiset::group_multiset_axioms;
        let f = |y: UpcomingExecution| y@;
        assert(work@.map_values(f) =~= Seq::<UpcomingView>::empty());
        assert(out@.map_values(f).to_multiset() =~= orig.to_multiset());
    }
    out
}

/// What a schedule task does next, decided at the top of its loop.
#[derive(Debug)]
pub enum TaskDecision {
    /// The task was cancelled: publish `Stopped` and exit.
    Stop,
    /// The schedule cannot fire: publish `Disabled` and exit.
    Disable,
    /// The schedule's configuration is invalid: record a skip with the
    /// error, publish `Error`, and exit.
    Fail { error: SchedulerError },
    /// Sleep until the instant, then fire.
    Wait { until: i64 },
}

/// After a fire, whether the task loops or the once-rule retires it.
#[derive(Clone, Copy, Debug, PartialEq, Eq, Structural)]
pub enum TaskContinuation {
    /// Loop and compute the next fire.
    Continue,
    /// A once schedule: disable the persisted row and exit.
    DisableOnce,
}

/// Plans one task iteration: a cancelled task stops; a disabled schedule
/// retires the task; an invalid configuration fails it; otherwise the next
/// fire instant is computed and published, and the task waits for it.
pub fn task_plan(schedule: &Schedule, state: &mut ScheduleRuntimeState, cancelled: bool, now:
    i64) -> (d: TaskDecision)
    requires
        valid_instant(now as int),
        valid_last_run(old(state).last_run),
    ensures
        cancelled ==> {
            &&& d is Stop
            &&& final(state).status == ScheduleStatus::Stopped
            &&& final(state).next_run is None
            &&& final(state).last_run == old(state).last_run
            &&& final(state).last_error == old(state).last_error
        },
        !cancelled && !schedule.enabled ==> {
            &&& d is Disable
            &&& final(state).status == ScheduleStatus::Disabled
            &&& final(state).next_run is None
            &&& final(state).last_run == old(state).last_run
            &&& final(state).last_error == old(state).last_error
        },
        !cancelled && schedule.enabled ==> match next_execution_spec(
            schedule@,
            now as int,
            old(state).last_run,
        ) {
            Err(_) => {
                &&& d matches TaskDecision::Fail { error } && (match error {
                    SchedulerError::InvalidScheduleTime { schedule_id, reason } => {
                        &&& schedule_id == schedule.id
                        &&& final(state).last_error == Some(reason)
                    },
                    _ => false,
                })
                &&& final(state).status == ScheduleStatus::Error
                &&& final(state).next_run == old(state).next_run
                &&& final(state).last_run == old(state).last_run
            },
            Ok(None) => {
                &&& d is Disable
                &&& final(state).status == ScheduleStatus::Disabled
                &&& final(state).next_run is None
                &&& final(state).last_run == old(state).last_run
                &&& final(state).last_error == old(state).last_error
            },
            Ok(Some(t)) => {
                &&& d matches TaskDecision::Wait { until } && until as int == t && now <= until
                &&& final(state).status == ScheduleStatus::Waiting
                &&& final(state).next_run == Some((t as i64))
                &&& final(state).last_error is None
                &&& final(state).last_run == old(state).last_run
            },
        },
{
    if cancelled {
        state.status = ScheduleStatus::Stopped;
        state.next_run = None;
        return TaskDecision::Stop;
    }
    if !schedule.enabled {
        state.status = ScheduleStatus::Disabled;
        state.next_run = None;
        return TaskDecision::Disable;
    }
    match next_execution_time(schedule, now, state.last_run) {
        Ok(Some(t)) => {
            state.next_run = Some(t);
            state.status = ScheduleStatus::Waiting;
            state.last_error = None;
            TaskDecision::Wait { until: t }
        },
        Ok(None) => {
            state.status = ScheduleStatus::Disabled;
            state.next_run = None;
            TaskDecision::Disable
        },
        Err(e) => {
            match &e {
                SchedulerError::InvalidScheduleTime { reason, .. } => {
                    state.last_error = Some(reason.clone());
                },
                _ => {
                    proof {
                        assert(false);
                    }
                },
            }
            state.status = ScheduleStatus::Error;
            TaskDecision::Fail { error: e }
        },
    }
}

/// Ends the wait before a fire: a cancellation during the sleep stops the
/// task; otherwise the task publishes `Running` and proceeds to play.
pub fn task_wait_ended(state: &mut ScheduleRuntimeState, cancelled: bool) -> (proceed: bool)
    ensures
        proceed == !cancelled,
        cancelled ==> final(state).status == ScheduleStatus::Stopped,
        !cancelled ==> final(state).status == ScheduleStatus::Running,
        final(state).next_run is None,
        final(state).last_run == old(state).last_run,
        final(state).last_error == old(state).last_error,
{
    if cancelled {
        state.status = ScheduleStatus::Stopped;
        state.next_run = None;
        false
    } else {
        state.status = ScheduleStatus::Running;
        state.next_run = None;
        true
    }
}

/// Settles the outcome of one fire: what the history receives, and the
/// state after it.  A successful play records a success, stamps the run
/// and returns the task to idle; a failed one records the failure and its
/// message and marks the task errored.
pub fn task_record_outcome(state: &mut ScheduleRuntimeState, play_ok: bool, error_message:
    Option<String>, now: i64) -> (rec: (PlaybackStatus, Option<String>))
    ensures
        play_ok ==> {
            &&& rec == (PlaybackStatus::Success, None::<String>)
            &&& final(state).last_run == Some(now)
            &&& final(state).status == ScheduleStatus::Idle
            &&& final(state).last_error == old(state).last_error
            &&& final(state).next_run == old(state).next_run
        },
        !play_ok ==> {
            &&& rec.0 == PlaybackStatus::Failed
            &&& rec.1 == error_message
            &&& final(state).last_error == error_message
            &&& final(state).status == ScheduleStatus::Error
            &&& final(state).last_run == old(state).last_run
            &&& final(state).next_run == old(state).next_run
        },
{
    if play_ok {
        state.last_run = Some(now);
        state.status = ScheduleStatus::Idle;
        (PlaybackStatus::Success, None)
    } else {
        state.last_error = error_message.clone();
        state.status = ScheduleStatus::Error;
        (PlaybackStatus::Failed, error_message)
    }
}

/// After a fire: a once schedule retires and has its persisted row
/// disabled; every other rule loops to the next fire.
pub fn task_continuation(schedule: &Schedule) -> (c: TaskContinuation)
    ensures
        c == TaskContinuation::DisableOnce <==> schedule.repeat_type@ is Once,
{
    match &schedule.repeat_type {
        RepeatType::Once => TaskContinuation::DisableOnce,
        _ => TaskContinuation::Continue,
    }
}

/// The update that flips a fired once schedule off, leaving every other
/// field as it is.
pub fn disable_update_input() -> (u: UpdateScheduleInput)
    ensures
        u.enabled == Some(false),
        u.name is None,
        u.audio_file_path is None,
        u.scheduled_time is None,
        u.repeat_type is None,
        u.volume is None,
        u.last_run_at is None,
{
    UpdateScheduleInput {
        name: None,
        audio_file_path: None,
        scheduled_time: None,
        enabled: Some(false),
        repeat_type: None,
        volume: None,
        last_run_at: None,
    }
}

/// Settles the outcome of disabling a fired once schedule in the store:
/// on success the refreshed definition replaces the slot's and the task
/// retires disabled; on failure the task marks the error and retires.
pub fn task_apply_disable_result(state: &mut ScheduleRuntimeState, ok: bool, error_message:
    Option<String>)
    ensures
        ok ==> {
            &&& final(state).status == ScheduleStatus::Disabled
            &&& final(state).next_run is None
            &&& final(state).last_error == old(state).last_error
        },
        !ok ==> {
            &&& final(state).status == ScheduleStatus::Error
            &&& final(state).last_error == error_message
            &&& final(state).next_run == old(state).next_run
        },
        final(state).last_run == old(state).last_run,
{
    if ok {
        state.status = ScheduleStatus::Disabled;
        state.next_run = None;
    } else {
        state.last_error = error_message;
        state.status = ScheduleStatus::Error;
    }
}

/// The volume an announcement plays at.
pub const ANNOUNCEMENT_VOLUME_PERCENT: u8 = 80;

/// The fade-in an announcement uses, in milliseconds.
pub const ANNOUNCEMENT_FADE_MS: u64 = 50;

/// The installed announcement clip for a configured sound; every known
/// sound, and any unknown one, maps to the spell clip.
pub fn announcement_file_name(snapshot: &SettingsSnapshot) -> (f: &'static str)
    ensures
        f@ == "light-spell-notifiation.wav"@,
{
    if str_eq(snapshot.announcement_sound.as_str(), "spell") {
        "light-spell-notifiation.wav"
    } else {
        "light-spell-notifiation.wav"
    }
}

/// How long the task lets an announcement play before the scheduled file:
/// the known duration plus a settling margin, or three seconds when the
/// duration is unknown.
pub fn announcement_wait_ms(duration_ms: Option<u64>) -> (w: u64)
    requires
        duration_ms matches Some(d) ==> d + 500 <= u64::MAX,
    ensures
        match duration_ms {
            Some(d) => w == d + 500,
            None => w == 3000,
        },
{
    match duration_ms {
        Some(d) => d + 500,
        None => 3000,
    }
}

} // verus!
