//! When extraction runs happen: once at the start, then periodically or on request, until
//! the process is asked to stop.

use crate::runtime::{
    initial_run_outcome, reset_status_after_failed_check, waiting_state, ExtractionStatus,
    ExtractorState, StateModel,
};
use vstd::prelude::*;

verus! {

/// What a schedule asks for next.
#[derive(Debug, Clone, Copy, PartialEq, Eq, Structural)]
pub enum ScheduleAction {
    /// Run an extraction; the first of the process or a later one.
    Run { force_reprocess: bool, initial: bool },
    /// Look at the shutdown flag after the first run, which succeeded or did not.
    PollAfterInitial { success: bool },
    /// Look at the shutdown flag.
    Poll,
    /// Wait so many days for the next check, or for a request, or for the shutdown.
    Wait { days: u64 },
    /// End cleanly.
    Stop,
    /// End with the error of the first run.
    FailWithRun,
    /// End because the first run did not succeed.
    FailInitial,
}

/// What came of it.
#[derive(Debug, Clone, Copy, PartialEq, Eq, Structural)]
pub enum ScheduleEvent {
    /// A run ended: whether it succeeded, or nothing where it ended in an error.
    RunEnded(Option<bool>),
    Shutdown(bool),
    Elapsed,
    Triggered(bool),
    ShutdownNotified,
}

/// Whether an event is an answer to an action.
pub open spec fn answers_schedule(event: ScheduleEvent, action: ScheduleAction) -> bool {
    match action {
        ScheduleAction::Run { .. } => event is RunEnded,
        ScheduleAction::PollAfterInitial { .. } | ScheduleAction::Poll => event is Shutdown,
        ScheduleAction::Wait { .. } => event is Elapsed || event is Triggered
            || event is ShutdownNotified,
        _ => false,
    }
}

/// The seconds of a number of days.
pub open spec fn seconds_of_days(days: u64) -> int {
    days * 86400
}

/// The seconds of a number of days, where they can be counted.
pub fn check_interval(days: u64) -> (seconds: Option<u64>)
    ensures
        seconds == if seconds_of_days(days) <= u64::MAX {
            Some(seconds_of_days(days) as u64)
        } else {
            None
        },
        seconds is Some <==> days * 24 * 60 * 60 <= u64::MAX,
        seconds is Some ==> seconds->0 == days * 24 * 60 * 60,
{
    days.checked_mul(86400)
}

/// What a schedule asks for, and the shared state, after an answer.
pub open spec fn schedule_step(
    asked: ScheduleAction,
    interval: u64,
    state: StateModel,
    event: ScheduleEvent,
) -> (ScheduleAction, StateModel) {
    match (asked, event) {
        (
            ScheduleAction::Run { initial: true, .. },
            ScheduleEvent::RunEnded(Some(success)),
        ) => (ScheduleAction::PollAfterInitial { success }, state),
        (ScheduleAction::Run { initial: true, .. }, _) => (ScheduleAction::FailWithRun, state),
        (ScheduleAction::PollAfterInitial { success }, ScheduleEvent::Shutdown(requested)) => (
            if success || requested {
                ScheduleAction::Poll
            } else {
                ScheduleAction::FailInitial
            },
            state,
        ),
        (ScheduleAction::Poll, ScheduleEvent::Shutdown(true)) => (ScheduleAction::Stop, state),
        (ScheduleAction::Poll, ScheduleEvent::Shutdown(false)) => (
            ScheduleAction::Wait { days: interval },
            waiting_state(state),
        ),
        (ScheduleAction::Wait { .. }, ScheduleEvent::Elapsed) => (
            ScheduleAction::Run { force_reprocess: false, initial: false },
            state,
        ),
        (ScheduleAction::Wait { .. }, ScheduleEvent::Triggered(force_reprocess)) => (
            ScheduleAction::Run { force_reprocess, initial: false },
            state,
        ),
        (
            ScheduleAction::Run { initial: false, .. },
            ScheduleEvent::RunEnded(Some(_)),
        ) => (ScheduleAction::Poll, state),
        (ScheduleAction::Run { initial: false, .. }, _) => (
            ScheduleAction::Poll,
            StateModel { status: ExtractionStatus::Failed, ..state },
        ),
        _ => (ScheduleAction::Stop, state),
    }
}

/// The schedule of a process: what it asked for last, and how long it waits between checks.
#[derive(Debug)]
pub struct Schedule {
    pub asked: ScheduleAction,
    pub interval_days: u64,
}

impl Schedule {
    /// The schedule of a process that begins with a run and then checks every `days` days.
    pub fn new(days: u64, force_reprocess: bool) -> (schedule: Schedule)
        ensures
            schedule.asked == (ScheduleAction::Run { force_reprocess, initial: true }),
            schedule.interval_days == days,
    {
        Schedule {
            asked: ScheduleAction::Run { force_reprocess, initial: true },
            interval_days: days,
        }
    }

    /// Whether an event is an answer to what this schedule asked for.
    pub fn accepts(&self, event: &ScheduleEvent) -> (fits: bool)
        ensures
            fits == answers_schedule(*event, self.asked),
    {
        match self.asked {
            ScheduleAction::Run { .. } => matches!(event, ScheduleEvent::RunEnded(_)),
            ScheduleAction::PollAfterInitial { .. } | ScheduleAction::Poll => {
                matches!(event, ScheduleEvent::Shutdown(_))
            },
            ScheduleAction::Wait { .. } => {
                matches!(event, ScheduleEvent::Elapsed)
                    || matches!(event, ScheduleEvent::Triggered(_))
                    || matches!(event, ScheduleEvent::ShutdownNotified)
            },
            _ => false,
        }
    }
}

/// One step of a schedule: take the answer to what was asked for, and ask for the next thing.
///
/// The first run decides over the process: where it fails, and no shutdown was requested, the
/// process ends with an error. A later run that ends in an error shows as failed, and the
/// schedule goes on.
pub fn run_musicbrainz_loop(
    schedule: &mut Schedule,
    state: &mut ExtractorState,
    event: ScheduleEvent,
) -> (next: ScheduleAction)
    requires
        answers_schedule(event, old(schedule).asked),
    ensures
        (next, final(state)@) == schedule_step(
            old(schedule).asked,
            old(schedule).interval_days,
            old(state)@,
            event,
        ),
        final(schedule).asked == next,
        final(schedule).interval_days == old(schedule).interval_days,
        old(state).completed_files.distinct() ==> final(state).completed_files.distinct(),
{
    schedule.asked = match (schedule.asked, event) {
        (
            ScheduleAction::Run { initial: true, .. },
            ScheduleEvent::RunEnded(Some(success)),
        ) => ScheduleAction::PollAfterInitial { success },
        (ScheduleAction::Run { initial: true, .. }, _) => ScheduleAction::FailWithRun,
        (ScheduleAction::PollAfterInitial { success }, ScheduleEvent::Shutdown(requested)) => {
            match initial_run_outcome(success, requested, "MusicBrainz") {
                Ok(()) => ScheduleAction::Poll,
                Err(_) => ScheduleAction::FailInitial,
            }
        },
        (ScheduleAction::Poll, ScheduleEvent::Shutdown(requested)) => {
            if requested {
                ScheduleAction::Stop
            } else {
                state.begin_waiting();
                ScheduleAction::Wait { days: schedule.interval_days }
            }
        },
        (ScheduleAction::Wait { .. }, ScheduleEvent::Elapsed) => ScheduleAction::Run {
            force_reprocess: false,
            initial: false,
        },
        (ScheduleAction::Wait { .. }, ScheduleEvent::Triggered(force_reprocess)) => {
            ScheduleAction::Run { force_reprocess, initial: false }
        },
        (ScheduleAction::Run { initial: false, .. }, ScheduleEvent::RunEnded(Some(_))) => {
            ScheduleAction::Poll
        },
        (ScheduleAction::Run { initial: false, .. }, _) => {
            reset_status_after_failed_check(state);
            ScheduleAction::Poll
        },
        _ => ScheduleAction::Stop,
    };
    schedule.asked
}

// ── Laws ────────────────────────────────────────────────────────────

/// What a schedule asks for after a list of answers, each with the shared state that it found.
pub open spec fn schedule_after(
    asked: ScheduleAction,
    interval: u64,
    steps: Seq<(StateModel, ScheduleEvent)>,
) -> ScheduleAction
    decreases steps.len(),
{
    if steps.len() == 0 {
        asked
    } else {
        schedule_step(
            schedule_after(asked, interval, steps.drop_last()),
            interval,
            steps.last().0,
            steps.last().1,
        ).0
    }
}

/// Whether each event of a list was an answer.
pub open spec fn schedule_well_answered(
    asked: ScheduleAction,
    interval: u64,
    steps: Seq<(StateModel, ScheduleEvent)>,
) -> bool
    decreases steps.len(),
{
    if steps.len() == 0 {
        true
    } else {
        &&& schedule_well_answered(asked, interval, steps.drop_last())
        &&& answers_schedule(
            steps.last().1,
            schedule_after(asked, interval, steps.drop_last()),
        )
    }
}

/// Whether a schedule is past its first run.
pub open spec fn past_initial(asked: ScheduleAction) -> bool {
    match asked {
        ScheduleAction::Run { initial, .. } => !initial,
        ScheduleAction::Poll | ScheduleAction::Wait { .. } | ScheduleAction::Stop => true,
        _ => false,
    }
}

/// Once the first run is over, no failure ends the process: it goes on until it is asked to
/// stop.
pub proof fn only_the_first_run_can_fail_the_process(
    asked: ScheduleAction,
    interval: u64,
    steps: Seq<(StateModel, ScheduleEvent)>,
)
    requires
        past_initial(asked),
        schedule_well_answered(asked, interval, steps),
    ensures
        past_initial(schedule_after(asked, interval, steps)),
        schedule_after(asked, interval, steps) != ScheduleAction::FailWithRun,
        schedule_after(asked, interval, steps) != ScheduleAction::FailInitial,
    decreases steps.len(),
{
    if steps.len() > 0 {
        only_the_first_run_can_fail_the_process(asked, interval, steps.drop_last());
    }
}

/// A shutdown during the first run is no failure, whatever came of the run.
pub proof fn a_shutdown_is_no_failure(success: bool, interval: u64, state: StateModel)
    ensures
        schedule_step(
            ScheduleAction::PollAfterInitial { success },
            interval,
            state,
            ScheduleEvent::Shutdown(true),
        ).0 == ScheduleAction::Poll,
        schedule_step(
            ScheduleAction::Poll,
            interval,
            state,
            ScheduleEvent::Shutdown(true),
        ).0 == ScheduleAction::Stop,
{
}

/// A check that ends in an error is never left running, and shows as failed through the wait
/// that follows.
pub proof fn a_failed_check_shows_through_the_wait(
    force_reprocess: bool,
    interval: u64,
    state: StateModel,
)
    ensures
        ({
            let run = ScheduleAction::Run { force_reprocess, initial: false };
            let failed = schedule_step(run, interval, state, ScheduleEvent::RunEnded(None));
            let waiting = schedule_step(
                failed.0,
                interval,
                failed.1,
                ScheduleEvent::Shutdown(false),
            );
            &&& failed.1.status == ExtractionStatus::Failed
            &&& waiting.0 == (ScheduleAction::Wait { days: interval })
            &&& waiting.1.status == ExtractionStatus::Failed
        }),
{
}

/// A run is forced only by a request that says so, never by the passing of time.
pub proof fn a_periodic_run_is_never_forced(
    days: u64,
    interval: u64,
    state: StateModel,
    force: bool,
)
    ensures
        schedule_step(
            ScheduleAction::Wait { days },
            interval,
            state,
            ScheduleEvent::Elapsed,
        ).0 == (ScheduleAction::Run { force_reprocess: false, initial: false }),
        schedule_step(
            ScheduleAction::Wait { days },
            interval,
            state,
            ScheduleEvent::Triggered(force),
        ).0 == (ScheduleAction::Run { force_reprocess: force, initial: false }),
{
}

/// Every answer fits exactly the actions that it can come of.
pub proof fn schedule_answers_fit_their_actions(event: ScheduleEvent, action: ScheduleAction)
    ensures
        event is RunEnded ==> (answers_schedule(event, action) <==> action is Run),
        event is Shutdown ==> (answers_schedule(event, action) <==> action is Poll
            || action is PollAfterInitial),
        event is Elapsed || event is Triggered || event is ShutdownNotified ==> (answers_schedule(
            event,
            action,
        ) <==> action is Wait),
{
}

/// A schedule stops only where a stop was asked for, at a look at the shutdown flag or through
/// a wait. It ends in failure only behind the first run, where that ended in an error or did
/// not succeed and no stop was asked for.
pub proof fn what_ends_a_schedule(
    asked: ScheduleAction,
    interval: u64,
    state: StateModel,
    event: ScheduleEvent,
)
    requires
        answers_schedule(event, asked),
    ensures
        ({
            let next = schedule_step(asked, interval, state, event).0;
            &&& next is Stop ==> {
                ||| asked is Poll && event == ScheduleEvent::Shutdown(true)
                ||| asked is Wait && event is ShutdownNotified
            }
            &&& next is FailWithRun ==> asked is Run && asked->initial && event
                == ScheduleEvent::RunEnded(None)
            &&& next is FailInitial ==> asked == (ScheduleAction::PollAfterInitial {
                success: false,
            }) && event == ScheduleEvent::Shutdown(false)
        }),
{
}

/// A schedule looks at the shutdown flag after every run: after the first, as long as it did
/// not end in an error, to see whether it counts as a failure, and after each later one,
/// whatever came of it. It waits only where no stop was asked for, as long as it was told to,
/// and runs again only behind a wait.
pub proof fn what_keeps_a_schedule_going(
    asked: ScheduleAction,
    interval: u64,
    state: StateModel,
    event: ScheduleEvent,
)
    requires
        answers_schedule(event, asked),
    ensures
        ({
            let next = schedule_step(asked, interval, state, event).0;
            &&& asked is Run && !asked->initial ==> next is Poll
            &&& next is PollAfterInitial ==> asked is Run && asked->initial && event
                == ScheduleEvent::RunEnded(Some(next->success))
            &&& next is Poll ==> {
                ||| asked is Run && !asked->initial
                ||| asked is PollAfterInitial && (asked->success || event
                    == ScheduleEvent::Shutdown(true))
            }
            &&& next is Wait ==> asked is Poll && event == ScheduleEvent::Shutdown(false)
                && next->days == interval
            &&& next is Run ==> asked is Wait && !next->initial && (event is Elapsed
                || event is Triggered) && (next->force_reprocess <==> event
                == ScheduleEvent::Triggered(true))
        }),
{
}

/// A schedule changes nothing but the status in the shared state: a later run that ended in an
/// error shows as failed, and a completed one as waiting once the wait begins.
pub proof fn a_schedule_changes_only_the_status(
    asked: ScheduleAction,
    interval: u64,
    state: StateModel,
    event: ScheduleEvent,
)
    requires
        answers_schedule(event, asked),
    ensures
        ({
            let next = schedule_step(asked, interval, state, event);
            let failed = asked is Run && !asked->initial && event == ScheduleEvent::RunEnded(None);
            let waits = next.0 is Wait && state.status == ExtractionStatus::Completed;
            &&& next.1.progress == state.progress
            &&& next.1.last_times == state.last_times
            &&& next.1.completed == state.completed
            &&& next.1.active == state.active
            &&& next.1.error_count == state.error_count
            &&& failed ==> next.1.status == ExtractionStatus::Failed
            &&& waits ==> next.1.status == ExtractionStatus::Waiting
            &&& !failed && !waits ==> next.1.status == state.status
        }),
{
}

/// Past the first run a schedule comes to its stop only through an answer that asks for it:
/// no run ends it.
pub proof fn a_schedule_stops_only_on_request(
    asked: ScheduleAction,
    interval: u64,
    steps: Seq<(StateModel, ScheduleEvent)>,
)
    requires
        !(asked is Stop),
        schedule_well_answered(asked, interval, steps),
        schedule_after(asked, interval, steps) is Stop,
    ensures
        steps.len() > 0,
        steps.last().1 == ScheduleEvent::Shutdown(true) || steps.last().1
            == ScheduleEvent::ShutdownNotified,
{
    what_ends_a_schedule(
        schedule_after(asked, interval, steps.drop_last()),
        interval,
        steps.last().0,
        steps.last().1,
    );
}

} // verus!
