//! When detection runs on its own: the scheduler's state, what a restart
//! sets up, and how long a cron schedule waits.
//!
//! The timer tasks themselves run in the application, which asks the
//! library what to do before each wait.

use vstd::prelude::*;

use crate::config::DetectionSchedule;

verus! {

/// Runtime state of the scheduler, surfaced to the UI and the tray.
#[derive(Debug, Clone, Copy, PartialEq, Eq, Structural)]
pub enum SchedulerState {
    /// No schedule configured.
    Disabled,
    /// DetectionSchedule configured but the user has paused it for this session.
    Paused,
    /// DetectionSchedule configured and the timer task is alive.
    Running,
}

/// The scheduler's state: disabled without a schedule, paused while the
/// user has paused it or no timer task is alive, running otherwise.
pub open spec fn spec_current_state(schedule: DetectionSchedule, paused: bool, has_task: bool) -> SchedulerState {
    if schedule is Disabled {
        SchedulerState::Disabled
    } else if paused || !has_task {
        SchedulerState::Paused
    } else {
        SchedulerState::Running
    }
}

/// The scheduler's state from the configured schedule, the pause flag and
/// whether a timer task is alive.
pub fn current_state(schedule: &DetectionSchedule, paused: bool, has_task: bool) -> (res: SchedulerState)
    ensures
        res == spec_current_state(*schedule, paused, has_task),
{
    if let DetectionSchedule::Disabled = schedule {
        return SchedulerState::Disabled;
    }
    if paused {
        return SchedulerState::Paused;
    }
    if has_task {
        SchedulerState::Running
    } else {
        SchedulerState::Paused
    }
}

/// What a restart of the scheduler sets up (after stopping the old task).
#[derive(Debug)]
pub enum RestartPlan {
    /// The user paused the scheduler: leave it stopped.
    StayStopped,
    /// No schedule is configured.
    Disabled,
    /// Detect every `secs` seconds, the first time after one period.
    Interval { secs: u64 },
    /// Detect at the occurrences of this cron expression.
    Cron { expr: String },
}

/// The shortest interval between two scheduled detections, in seconds.
pub open spec fn min_interval_secs() -> u64 {
    30
}

/// What a restart sets up for the configured schedule.
pub fn restart_plan(paused: bool, schedule: &DetectionSchedule) -> (res: RestartPlan)
    ensures
        paused ==> res is StayStopped,
        !paused ==> match *schedule {
            DetectionSchedule::Disabled => res is Disabled,
            DetectionSchedule::Interval { seconds } => res == RestartPlan::Interval {
                secs: if seconds < min_interval_secs() {
                    min_interval_secs()
                } else {
                    seconds
                },
            },
            DetectionSchedule::Cron { expr } => res matches RestartPlan::Cron { expr: e } && e == expr,
        },
{
    if paused {
        return RestartPlan::StayStopped;
    }
    match schedule {
        DetectionSchedule::Disabled => RestartPlan::Disabled,
        DetectionSchedule::Interval { seconds } => RestartPlan::Interval {
            secs: if *seconds < 30 {
                30
            } else {
                *seconds
            },
        },
        DetectionSchedule::Cron { expr } => RestartPlan::Cron { expr: expr.clone() },
    }
}

/// What the tray's pause/resume entry does in a given state.
#[derive(Debug, Clone, Copy, PartialEq, Eq, Structural)]
pub enum ToggleAction {
    Pause,
    Resume,
    Nothing,
}

/// What the toggle does in a state.
pub open spec fn toggle_of(state: SchedulerState) -> ToggleAction {
    match state {
        SchedulerState::Running => ToggleAction::Pause,
        SchedulerState::Paused => ToggleAction::Resume,
        SchedulerState::Disabled => ToggleAction::Nothing,
    }
}

/// A running scheduler is paused, a paused one resumed; without a schedule
/// nothing happens.
pub fn toggle_action(state: SchedulerState) -> (res: ToggleAction)
    ensures
        res == toggle_of(state),
{
    match state {
        SchedulerState::Running => ToggleAction::Pause,
        SchedulerState::Paused => ToggleAction::Resume,
        SchedulerState::Disabled => ToggleAction::Nothing,
    }
}

} // verus!

verus! {

/// Without a configured schedule the scheduler is disabled, whatever the
/// pause flag and whether a timer task is alive; with one it is never
/// disabled, and it runs exactly when it is not paused and its timer task
/// is alive.
pub proof fn lemma_no_schedule_is_disabled(schedule: DetectionSchedule, paused: bool, has_task: bool)
    ensures
        schedule is Disabled ==> spec_current_state(schedule, paused, has_task) == SchedulerState::Disabled,
        !(schedule is Disabled) ==> spec_current_state(schedule, paused, has_task) != SchedulerState::Disabled,
        !(schedule is Disabled) ==> (spec_current_state(schedule, paused, has_task) == SchedulerState::Running
            <==> !paused && has_task),
{
}

/// While the user has paused the scheduler it never runs, and a restart
/// leaves it stopped.
pub proof fn lemma_paused_never_runs(schedule: DetectionSchedule, has_task: bool)
    ensures
        spec_current_state(schedule, true, has_task) != SchedulerState::Running,
{
}

/// With a schedule configured, pausing a running scheduler (flag set, task
/// stopped) leaves it paused, and resuming it (flag cleared, task started
/// by the restart) leaves it running; the tray's toggle turns each state
/// into the other.
pub proof fn lemma_pause_resume_round_trip(schedule: DetectionSchedule)
    requires
        !(schedule is Disabled),
    ensures
        spec_current_state(schedule, true, false) == SchedulerState::Paused,
        spec_current_state(schedule, false, true) == SchedulerState::Running,
        toggle_of(SchedulerState::Running) == ToggleAction::Pause,
        toggle_of(SchedulerState::Paused) == ToggleAction::Resume,
{
}

} // verus!
