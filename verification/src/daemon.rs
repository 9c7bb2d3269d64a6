//! The long-running controller: a control run every `poll_interval_secs`
//! seconds, and on SIGTERM or Ctrl-C one last run that restores full power
//! before the program exits.
//!
//! Like a single run, the daemon is a state machine: `daemon_step` takes the
//! state and the outcome of the last action and gives the next state and
//! action; the application performs the actions and reports the outcomes,
//! or the shutdown signal.

use vstd::prelude::*;
use crate::config::Config;
use crate::controller::{RunState, Action, Event, RunError, accepts, next, step};

verus! {

/// Where the daemon stands.
#[derive(Debug, PartialEq, Eq)]
pub enum DaemonState {
    /// Not started yet.
    Starting,
    /// A control run is under way.
    Running(RunState),
    /// Waiting for the next poll.
    Sleeping,
    /// Shutting down: the run that restores full power is under way.
    Restoring(RunState),
    /// The program is to exit.
    Stopped,
}

/// What the daemon is told.
#[derive(Debug, PartialEq, Eq)]
pub enum DaemonEvent {
    /// The program has started.
    Started,
    /// The outcome of the run's last action.
    Run(Event),
    /// The pause between polls is over.
    Slept,
    /// SIGTERM or Ctrl-C arrived.
    Shutdown,
}

/// What the application is to do next.
#[derive(Debug, PartialEq, Eq)]
pub enum DaemonAction {
    /// Perform this action of the current run and report `DaemonEvent::Run`.
    Perform(Action),
    /// The run ended with `last`; wait `secs` seconds and report
    /// `DaemonEvent::Slept`.
    Pause { secs: u64, last: Result<(), RunError> },
    /// Exit with the outcome of the run that restored full power.
    Exit(Result<(), RunError>),
}

/// The event is one that the daemon takes in `state`: the answer to the
/// pending action, or, before shutting down, the shutdown signal.
pub open spec fn daemon_accepts(state: DaemonState, event: DaemonEvent) -> bool {
    match (state, event) {
        (DaemonState::Starting, DaemonEvent::Started) => true,
        (DaemonState::Running(s), DaemonEvent::Run(e)) => accepts(s, e),
        (DaemonState::Running(_), DaemonEvent::Shutdown) => true,
        (DaemonState::Sleeping, DaemonEvent::Slept) => true,
        (DaemonState::Sleeping, DaemonEvent::Shutdown) => true,
        (DaemonState::Restoring(s), DaemonEvent::Run(e)) => accepts(s, e),
        _ => false,
    }
}

/// The start of a control run that reads the prices.
pub open spec fn poll_run_start() -> RunState {
    RunState::LoggingIn { restore: false }
}

/// The start of the run that restores full power.
pub open spec fn restore_run_start() -> RunState {
    RunState::LoggingIn { restore: true }
}

/// The next state and action of the daemon. (`daemon_step` takes only the
/// events of `daemon_accepts`; for any other event the state is kept.)
pub open spec fn daemon_next(config: Config, state: DaemonState, event: DaemonEvent) -> (DaemonState, DaemonAction) {
    match (state, event) {
        (DaemonState::Starting, DaemonEvent::Started) => (
            DaemonState::Running(poll_run_start()),
            DaemonAction::Perform(Action::Login),
        ),
        (DaemonState::Running(_), DaemonEvent::Shutdown) => (
            DaemonState::Restoring(restore_run_start()),
            DaemonAction::Perform(Action::Login),
        ),
        (DaemonState::Sleeping, DaemonEvent::Shutdown) => (
            DaemonState::Restoring(restore_run_start()),
            DaemonAction::Perform(Action::Login),
        ),
        (DaemonState::Running(s), DaemonEvent::Run(e)) => {
            let (s2, a) = next(config, s, e);
            match a {
                Action::Finish(r) => (
                    DaemonState::Sleeping,
                    DaemonAction::Pause { secs: config.control.poll_interval_secs, last: r },
                ),
                _ => (DaemonState::Running(s2), DaemonAction::Perform(a)),
            }
        },
        (DaemonState::Sleeping, DaemonEvent::Slept) => (
            DaemonState::Running(poll_run_start()),
            DaemonAction::Perform(Action::Login),
        ),
        (DaemonState::Restoring(s), DaemonEvent::Run(e)) => {
            let (s2, a) = next(config, s, e);
            match a {
                Action::Finish(r) => (DaemonState::Stopped, DaemonAction::Exit(r)),
                _ => (DaemonState::Restoring(s2), DaemonAction::Perform(a)),
            }
        },
        (s, _) => (s, DaemonAction::Exit(Ok(()))),
    }
}

/// Advances the daemon by one event.
pub fn daemon_step(config: &Config, state: DaemonState, event: DaemonEvent) -> (r: (DaemonState, DaemonAction))
    requires
        daemon_accepts(state, event),
    ensures
        r == daemon_next(*config, state, event),
{
    match state {
        DaemonState::Starting => (
            DaemonState::Running(RunState::LoggingIn { restore: false }),
            DaemonAction::Perform(Action::Login),
        ),
        DaemonState::Running(s) => match event {
            DaemonEvent::Shutdown => (
                DaemonState::Restoring(RunState::LoggingIn { restore: true }),
                DaemonAction::Perform(Action::Login),
            ),
            DaemonEvent::Run(e) => {
                let (s2, a) = step(config, s, e);
                match a {
                    Action::Finish(r) => (
                        DaemonState::Sleeping,
                        DaemonAction::Pause { secs: config.control.poll_interval_secs, last: r },
                    ),
                    other => (DaemonState::Running(s2), DaemonAction::Perform(other)),
                }
            },
            _ => (DaemonState::Stopped, DaemonAction::Exit(Ok(()))),
        },
        DaemonState::Sleeping => match event {
            DaemonEvent::Shutdown => (
                DaemonState::Restoring(RunState::LoggingIn { restore: true }),
                DaemonAction::Perform(Action::Login),
            ),
            _ => (
                DaemonState::Running(RunState::LoggingIn { restore: false }),
                DaemonAction::Perform(Action::Login),
            ),
        },
        DaemonState::Restoring(s) => match event {
            DaemonEvent::Run(e) => {
                let (s2, a) = step(config, s, e);
                match a {
                    Action::Finish(r) => (DaemonState::Stopped, DaemonAction::Exit(r)),
                    other => (DaemonState::Restoring(s2), DaemonAction::Perform(other)),
                }
            },
            _ => (DaemonState::Stopped, DaemonAction::Exit(Ok(()))),
        },
        DaemonState::Stopped => (DaemonState::Stopped, DaemonAction::Exit(Ok(()))),
    }
}

} // verus!

verus! {

/// The daemon's actions from `state` as the events arrive, up to the first
/// event that it does not take.
pub open spec fn daemon_run_from(config: Config, state: DaemonState, events: Seq<DaemonEvent>) -> Seq<DaemonAction>
    decreases events.len(),
{
    if events.len() == 0 || !daemon_accepts(state, events[0]) {
        Seq::empty()
    } else {
        let (s, a) = daemon_next(config, state, events[0]);
        seq![a] + daemon_run_from(config, s, events.drop_first())
    }
}

/// A run state that belongs to the run restoring full power.
pub open spec fn restoring_state(config: Config, s: RunState) -> bool {
    let max = config.inverter.max_power_watts;
    match s {
        RunState::LoggingIn { restore } => restore,
        RunState::ReadingCurrent { desired, .. } => desired == max,
        RunState::Writing { desired, .. } => desired == max,
        RunState::Waiting { desired, .. } => desired == max,
        RunState::Verifying { desired, .. } => desired == max,
        RunState::Relogging { desired } => desired == max,
        RunState::LoggingOut => true,
        RunState::Done => true,
        _ => false,
    }
}

proof fn lemma_restoring_step(config: Config, s: RunState, e: Event)
    requires
        accepts(s, e),
        restoring_state(config, s),
    ensures
        restoring_state(config, next(config, s, e).0),
        next(config, s, e).1 matches Action::WritePowerLimit { watts, .. } ==> watts
            == config.inverter.max_power_watts,
{
}

proof fn lemma_restoring_run(config: Config, s: RunState, events: Seq<DaemonEvent>, k: int)
    requires
        restoring_state(config, s),
        0 <= k < daemon_run_from(config, DaemonState::Restoring(s), events).len(),
    ensures
        daemon_run_from(config, DaemonState::Restoring(s), events)[k] matches DaemonAction::Perform(
            Action::WritePowerLimit { watts, .. },
        ) ==> watts == config.inverter.max_power_watts,
        daemon_run_from(config, DaemonState::Restoring(s), events)[k] is Exit ==> k
            == daemon_run_from(config, DaemonState::Restoring(s), events).len() - 1,
    decreases events.len(),
{
    let ev = events[0];
    let e = ev->Run_0;
    let (s2, a) = next(config, s, e);
    lemma_restoring_step(config, s, e);
    let (d, da) = daemon_next(config, DaemonState::Restoring(s), ev);
    let rest = daemon_run_from(config, d, events.drop_first());
    assert(daemon_run_from(config, DaemonState::Restoring(s), events) =~= seq![da] + rest);
    if a is Finish {
        assert(d is Stopped);
        assert(rest.len() == 0);
    } else {
        assert(d == DaemonState::Restoring(s2));
        if k > 0 {
            lemma_restoring_run(config, s2, events.drop_first(), k - 1);
        }
    }
}

/// On SIGTERM or Ctrl-C, whether a run is under way or the daemon is
/// between polls: the daemon abandons what it was doing and logs in for a
/// run that restores full power; from then on every write it sends is
/// `max_power_watts`, and the exit (with that run's outcome) is its last
/// action.
pub proof fn law_shutdown_restores_full_power(config: Config, state: DaemonState, events: Seq<DaemonEvent>, k: int)
    requires
        state is Running || state is Sleeping,
        0 <= k < daemon_run_from(config, state, seq![DaemonEvent::Shutdown] + events).len(),
    ensures
        daemon_run_from(config, state, seq![DaemonEvent::Shutdown] + events)[0]
            == DaemonAction::Perform(Action::Login),
        daemon_run_from(config, state, seq![DaemonEvent::Shutdown] + events)[k] matches DaemonAction::Perform(
            Action::WritePowerLimit { watts, .. },
        ) ==> watts == config.inverter.max_power_watts,
        daemon_run_from(config, state, seq![DaemonEvent::Shutdown] + events)[k] is Exit ==> k
            == daemon_run_from(config, state, seq![DaemonEvent::Shutdown] + events).len() - 1,
{
    let evs = seq![DaemonEvent::Shutdown] + events;
    assert(evs[0] == DaemonEvent::Shutdown);
    assert(evs.drop_first() =~= events);
    let rest = daemon_run_from(config, DaemonState::Restoring(restore_run_start()), events);
    assert(daemon_run_from(config, state, evs) =~= seq![DaemonAction::Perform(Action::Login)] + rest);
    if k > 0 {
        lemma_restoring_run(config, restore_run_start(), events, k - 1);
    }
}

/// The restore run reads the inverter's limit and takes full power as the
/// desired value; with `law_write_only_on_change`, it writes full power
/// exactly where the inverter reports another value.
pub proof fn law_restore_run_targets_full_power(config: Config, sid: String)
    ensures
        next(config, restore_run_start(), Event::LoggedIn(Ok(sid))) == (
            RunState::ReadingCurrent { sid, desired: config.inverter.max_power_watts },
            Action::ReadPowerLimit { sid },
        ),
{
}

/// The program exits only from the restore run: an exit follows a shutdown.
pub proof fn law_exit_only_after_shutdown(config: Config, state: DaemonState, event: DaemonEvent)
    requires
        daemon_accepts(state, event),
    ensures
        daemon_next(config, state, event).1 is Exit ==> state is Restoring,
        daemon_next(config, state, event).0 is Restoring ==> (state is Restoring
            || event is Shutdown),
{
}

/// When a run ends, the daemon waits `poll_interval_secs` seconds and then
/// starts a new run, whose first step after logging in is to load the price
/// file of the day (so a new day's file is taken up after midnight).
pub proof fn law_polls_every_interval(config: Config, s: RunState, e: Event, sid: String)
    requires
        accepts(s, e),
        next(config, s, e).1 is Finish,
    ensures
        daemon_next(config, DaemonState::Running(s), DaemonEvent::Run(e)) == (
            DaemonState::Sleeping,
            DaemonAction::Pause {
                secs: config.control.poll_interval_secs,
                last: next(config, s, e).1->Finish_0,
            },
        ),
        daemon_next(config, DaemonState::Sleeping, DaemonEvent::Slept) == (
            DaemonState::Running(poll_run_start()),
            DaemonAction::Perform(Action::Login),
        ),
        next(config, poll_run_start(), Event::LoggedIn(Ok(sid))) == (
            RunState::LoadingPrices { sid },
            Action::LoadPrices,
        ),
{
}

} // verus!
