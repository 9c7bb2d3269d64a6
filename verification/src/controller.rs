//! One control run: log in, find the current price slot, compare its price with
//! the threshold, read the inverter's power limit and write the desired one
//! only where it differs, checking every write by reading it back.
//!
//! The run is a state machine: `step` takes the state and the outcome of the
//! last action and gives the next state and the next action. The application
//! performs the actions (HTTP calls, file reading, waiting) and reports back.

use vstd::prelude::*;
use crate::clock::{TimeOfDay, local_time_now};
use crate::config::Config;
use crate::csv_parser::{PriceSlot, CsvError, slot_index_from, slot_for_time};
use crate::decimal::Decimal;
use crate::inverter::{InverterError, VERIFY_DELAY_SECS};

verus! {

/// The power limit for a slot priced `price`: the configured limit when the
/// price is below the threshold, else full power.
pub open spec fn target_watts(config: Config, price: Decimal) -> u32 {
    if price.spec_lt(config.control.price_threshold_eur_mwh) {
        config.control.limit_power_watts
    } else {
        config.inverter.max_power_watts
    }
}

/// Why the price file gave no slots.
#[derive(Debug, PartialEq, Eq)]
pub enum PriceFileError {
    /// The file could not be read.
    Unreadable,
    /// The file's contents are refused.
    Invalid(CsvError),
}

/// Why a write of the power limit failed.
#[derive(Clone, Copy, Debug, PartialEq, Eq, Structural)]
pub enum SetError {
    /// The write request itself failed.
    Write(InverterError),
    /// Reading the value back failed.
    Verify(InverterError),
    /// The inverter reports another value than the one sent.
    Mismatch { sent: u32, actual: u32 },
}

/// Why a control run failed.
#[derive(Debug, PartialEq, Eq)]
pub enum RunError {
    /// The first login failed.
    Login(InverterError),
    /// The price file could not be used.
    PriceFile(PriceFileError),
    /// No slot of the price file holds the current time.
    NoSlotForTime(TimeOfDay),
    /// Reading the current power limit failed.
    ReadCurrent(InverterError),
    /// A write failed and the login before its retry failed too.
    Relogin(InverterError),
    /// The write failed even after logging in again.
    SetFailed(SetError),
}

/// The desired power limit at time `now`, or that no slot holds `now`.
pub open spec fn desired_outcome(config: Config, slots: Seq<PriceSlot>, now: TimeOfDay) -> Result<u32, RunError> {
    match slot_index_from(slots, now, 0) {
        None => Err(RunError::NoSlotForTime(now)),
        Some(i) => Ok(target_watts(config, slots[i].price_eur_mwh)),
    }
}

/// The power limit that the price of the slot holding `now` calls for.
pub fn desired_power_watts(config: &Config, slots: &[PriceSlot], now: TimeOfDay) -> (r: Result<u32, RunError>)
    ensures
        r == desired_outcome(*config, slots@, now),
        match slot_index_from(slots@, now, 0) {
            None => r == Err::<u32, RunError>(RunError::NoSlotForTime(now)),
            Some(i) => r == Ok::<u32, RunError>(
                if slots@[i].price_eur_mwh.spec_lt(config.control.price_threshold_eur_mwh) {
                    config.control.limit_power_watts
                } else {
                    config.inverter.max_power_watts
                },
            ),
        },
{
    match slot_for_time(slots, now) {
        None => Err(RunError::NoSlotForTime(now)),
        Some(slot) => {
            proof {
                lemma_slot_index_in_range(slots@, now, 0);
            }
            if slot.price_eur_mwh.less_than(&config.control.price_threshold_eur_mwh) {
                Ok(config.control.limit_power_watts)
            } else {
                Ok(config.inverter.max_power_watts)
            }
        },
    }
}

proof fn lemma_slot_index_in_range(slots: Seq<PriceSlot>, t: TimeOfDay, i: int)
    requires
        0 <= i,
    ensures
        slot_index_from(slots, t, i) matches Some(k) ==> i <= k < slots.len(),
    decreases slots.len() - i,
{
    if i < slots.len() && !(slots[i].start.secs <= t.secs && t.secs < slots[i].end.secs) {
        lemma_slot_index_in_range(slots, t, i + 1);
    }
}

/// Where a control run stands.
#[derive(Debug, PartialEq, Eq)]
pub enum RunState {
    /// Nothing done yet.
    Start,
    /// Waiting for the first login. A run with `restore` sets full power: it
    /// skips the price file and takes `max_power_watts` as the desired value.
    LoggingIn { restore: bool },
    /// Logged in; waiting for the price file.
    LoadingPrices { sid: String },
    /// Waiting for the inverter's current power limit.
    ReadingCurrent { sid: String, desired: u32 },
    /// Waiting for a write's reply; `retried` after a new login.
    Writing { sid: String, desired: u32, retried: bool },
    /// Waiting before reading the written value back.
    Waiting { sid: String, desired: u32, retried: bool },
    /// Waiting for the value read back after a write.
    Verifying { sid: String, desired: u32, retried: bool },
    /// A write failed; waiting for the login before the retry.
    Relogging { desired: u32 },
    /// Waiting for the logout at the end of a successful run.
    LoggingOut,
    /// The run is over.
    Done,
}

/// What the application is to do next.
#[derive(Debug, PartialEq, Eq)]
pub enum Action {
    /// Log in and report `Event::LoggedIn`.
    Login,
    /// Read and parse today's price file and report `Event::PricesLoaded`.
    LoadPrices,
    /// Read the power limit and report `Event::PowerLimit`.
    ReadPowerLimit { sid: String },
    /// Write the power limit and report `Event::Written`.
    WritePowerLimit { sid: String, watts: u32 },
    /// Wait this many seconds and report `Event::Waited`.
    Wait { secs: u64 },
    /// Log out (failures do not matter) and report `Event::LoggedOut`.
    Logout { sid: String },
    /// The run is over with this outcome.
    Finish(Result<(), RunError>),
}

/// The outcome of the last action.
#[derive(Debug, PartialEq, Eq)]
pub enum Event {
    /// The run begins.
    Begin,
    /// A login gave this session id, or failed.
    LoggedIn(Result<String, InverterError>),
    /// The price file gave these slots, read at local time `now`.
    PricesLoaded { slots: Result<Vec<PriceSlot>, PriceFileError>, now: TimeOfDay },
    /// A read gave this power limit, or failed.
    PowerLimit(Result<u32, InverterError>),
    /// A write was accepted, or failed.
    Written(Result<(), InverterError>),
    /// The wait is over.
    Waited,
    /// The logout was attempted.
    LoggedOut,
}

/// The event answers the action that `state` waits for.
pub open spec fn accepts(state: RunState, event: Event) -> bool {
    match state {
        RunState::Start => event is Begin,
        RunState::LoggingIn { .. } => event is LoggedIn,
        RunState::LoadingPrices { .. } => event is PricesLoaded,
        RunState::ReadingCurrent { .. } => event is PowerLimit,
        RunState::Writing { .. } => event is Written,
        RunState::Waiting { .. } => event is Waited,
        RunState::Verifying { .. } => event is PowerLimit,
        RunState::Relogging { .. } => event is LoggedIn,
        RunState::LoggingOut => event is LoggedOut,
        RunState::Done => false,
    }
}


/// After a failed write attempt: log in again and retry once, else give up.
pub open spec fn after_failed_attempt(desired: u32, retried: bool, err: SetError) -> (RunState, Action) {
    if !retried {
        (RunState::Relogging { desired }, Action::Login)
    } else {
        (RunState::Done, Action::Finish(Err(RunError::SetFailed(err))))
    }
}

/// The next state and action of a run, given the event that answers the
/// action the state waits for. (`step` takes only such events, see `accepts`;
/// for any other event `next` keeps the state.)
pub open spec fn next(config: Config, state: RunState, event: Event) -> (RunState, Action) {
    match (state, event) {
        (RunState::Start, _) => (RunState::LoggingIn { restore: false }, Action::Login),
        (RunState::LoggingIn { restore }, Event::LoggedIn(Ok(sid))) => if restore {
            (
                RunState::ReadingCurrent { sid, desired: config.inverter.max_power_watts },
                Action::ReadPowerLimit { sid },
            )
        } else {
            (RunState::LoadingPrices { sid }, Action::LoadPrices)
        },
        (RunState::LoggingIn { .. }, Event::LoggedIn(Err(e))) => (
            RunState::Done,
            Action::Finish(Err(RunError::Login(e))),
        ),
        (RunState::LoadingPrices { sid }, Event::PricesLoaded { slots, now }) => match slots {
            Err(e) => (RunState::Done, Action::Finish(Err(RunError::PriceFile(e)))),
            Ok(v) => match desired_outcome(config, v@, now) {
                Err(e) => (RunState::Done, Action::Finish(Err(e))),
                Ok(desired) => (
                    RunState::ReadingCurrent { sid, desired },
                    Action::ReadPowerLimit { sid },
                ),
            },
        },
        (RunState::ReadingCurrent { sid, desired }, Event::PowerLimit(Ok(current))) => if current
            == desired {
            (RunState::LoggingOut, Action::Logout { sid })
        } else {
            (
                RunState::Writing { sid, desired, retried: false },
                Action::WritePowerLimit { sid, watts: desired },
            )
        },
        (RunState::ReadingCurrent { .. }, Event::PowerLimit(Err(e))) => (
            RunState::Done,
            Action::Finish(Err(RunError::ReadCurrent(e))),
        ),
        (RunState::Writing { sid, desired, retried }, Event::Written(Ok(()))) => (
            RunState::Waiting { sid, desired, retried },
            Action::Wait { secs: VERIFY_DELAY_SECS },
        ),
        (RunState::Writing { desired, retried, .. }, Event::Written(Err(e))) => after_failed_attempt(
            desired,
            retried,
            SetError::Write(e),
        ),
        (RunState::Waiting { sid, desired, retried }, _) => (
            RunState::Verifying { sid, desired, retried },
            Action::ReadPowerLimit { sid },
        ),
        (RunState::Verifying { sid, desired, retried }, Event::PowerLimit(Ok(actual))) => if actual
            == desired {
            (RunState::LoggingOut, Action::Logout { sid })
        } else {
            after_failed_attempt(desired, retried, SetError::Mismatch { sent: desired, actual })
        },
        (RunState::Verifying { desired, retried, .. }, Event::PowerLimit(Err(e))) => after_failed_attempt(
            desired,
            retried,
            SetError::Verify(e),
        ),
        (RunState::Relogging { desired }, Event::LoggedIn(Ok(sid))) => (
            RunState::Writing { sid, desired, retried: true },
            Action::WritePowerLimit { sid, watts: desired },
        ),
        (RunState::Relogging { .. }, Event::LoggedIn(Err(e))) => (
            RunState::Done,
            Action::Finish(Err(RunError::Relogin(e))),
        ),
        (RunState::LoggingOut, _) => (RunState::Done, Action::Finish(Ok(()))),
        (s, _) => (s, Action::Finish(Ok(()))),
    }
}

fn failed_attempt(desired: u32, retried: bool, err: SetError) -> (r: (RunState, Action))
    ensures
        r == after_failed_attempt(desired, retried, err),
{
    if !retried {
        (RunState::Relogging { desired }, Action::Login)
    } else {
        (RunState::Done, Action::Finish(Err(RunError::SetFailed(err))))
    }
}

/// Advances a run by one event.
pub fn step(config: &Config, state: RunState, event: Event) -> (r: (RunState, Action))
    requires
        accepts(state, event),
    ensures
        r == next(*config, state, event),
{
    match state {
        RunState::Start => (RunState::LoggingIn { restore: false }, Action::Login),
        RunState::LoggingIn { restore } => match event {
            Event::LoggedIn(Ok(sid)) => {
                if restore {
                    let read_sid = sid.clone();
                    (
                        RunState::ReadingCurrent { sid, desired: config.inverter.max_power_watts },
                        Action::ReadPowerLimit { sid: read_sid },
                    )
                } else {
                    (RunState::LoadingPrices { sid }, Action::LoadPrices)
                }
            },
            Event::LoggedIn(Err(e)) => (RunState::Done, Action::Finish(Err(RunError::Login(e)))),
            _ => (RunState::LoggingIn { restore }, Action::Finish(Ok(()))),
        },
        RunState::LoadingPrices { sid } => match event {
            Event::PricesLoaded { slots, now } => match slots {
                Err(e) => (RunState::Done, Action::Finish(Err(RunError::PriceFile(e)))),
                Ok(v) => match desired_power_watts(config, v.as_slice(), now) {
                    Err(e) => (RunState::Done, Action::Finish(Err(e))),
                    Ok(desired) => {
                        let read_sid = sid.clone();
                        (
                            RunState::ReadingCurrent { sid, desired },
                            Action::ReadPowerLimit { sid: read_sid },
                        )
                    },
                },
            },
            _ => (RunState::LoadingPrices { sid }, Action::Finish(Ok(()))),
        },
        RunState::ReadingCurrent { sid, desired } => match event {
            Event::PowerLimit(Ok(current)) => {
                if current == desired {
                    (RunState::LoggingOut, Action::Logout { sid })
                } else {
                    let write_sid = sid.clone();
                    (
                        RunState::Writing { sid, desired, retried: false },
                        Action::WritePowerLimit { sid: write_sid, watts: desired },
                    )
                }
            },
            Event::PowerLimit(Err(e)) => (
                RunState::Done,
                Action::Finish(Err(RunError::ReadCurrent(e))),
            ),
            _ => (RunState::ReadingCurrent { sid, desired }, Action::Finish(Ok(()))),
        },
        RunState::Writing { sid, desired, retried } => match event {
            Event::Written(Ok(())) => (
                RunState::Waiting { sid, desired, retried },
                Action::Wait { secs: VERIFY_DELAY_SECS },
            ),
            Event::Written(Err(e)) => failed_attempt(desired, retried, SetError::Write(e)),
            _ => (RunState::Writing { sid, desired, retried }, Action::Finish(Ok(()))),
        },
        RunState::Waiting { sid, desired, retried } => {
            let read_sid = sid.clone();
            (RunState::Verifying { sid, desired, retried }, Action::ReadPowerLimit { sid: read_sid })
        },
        RunState::Verifying { sid, desired, retried } => match event {
            Event::PowerLimit(Ok(actual)) => {
                if actual == desired {
                    (RunState::LoggingOut, Action::Logout { sid })
                } else {
                    failed_attempt(desired, retried, SetError::Mismatch { sent: desired, actual })
                }
            },
            Event::PowerLimit(Err(e)) => failed_attempt(desired, retried, SetError::Verify(e)),
            _ => (RunState::Verifying { sid, desired, retried }, Action::Finish(Ok(()))),
        },
        RunState::Relogging { desired } => match event {
            Event::LoggedIn(Ok(sid)) => {
                let write_sid = sid.clone();
                (
                    RunState::Writing { sid, desired, retried: true },
                    Action::WritePowerLimit { sid: write_sid, watts: desired },
                )
            },
            Event::LoggedIn(Err(e)) => (RunState::Done, Action::Finish(Err(RunError::Relogin(e)))),
            _ => (RunState::Relogging { desired }, Action::Finish(Ok(()))),
        },
        RunState::LoggingOut => (RunState::Done, Action::Finish(Ok(()))),
        RunState::Done => (RunState::Done, Action::Finish(Ok(()))),
    }
}

/// The event that reports the price file's slots, stamped with the local time
/// of day read from the clock now.
pub fn prices_loaded(slots: Result<Vec<PriceSlot>, PriceFileError>) -> (r: Event)
    ensures
        r matches Event::PricesLoaded { slots: s, now } && s == slots && now.wf(),
{
    let now = local_time_now();
    Event::PricesLoaded { slots, now }
}

} // verus!

verus! {

/// The actions of a run from `state` as the events arrive, up to the first
/// event that does not answer the pending action.
pub open spec fn run_from(config: Config, state: RunState, events: Seq<Event>) -> Seq<Action>
    decreases events.len(),
{
    if events.len() == 0 || !accepts(state, events[0]) {
        Seq::empty()
    } else {
        let (s, a) = next(config, state, events[0]);
        seq![a] + run_from(config, s, events.drop_first())
    }
}

/// The number of writes among `actions`.
pub open spec fn count_writes(actions: Seq<Action>) -> nat
    decreases actions.len(),
{
    if actions.len() == 0 {
        0
    } else {
        (if actions[0] is WritePowerLimit {
            1nat
        } else {
            0nat
        }) + count_writes(actions.drop_first())
    }
}

/// How many writes a run may still make from `state`.
pub open spec fn write_budget(state: RunState) -> nat {
    match state {
        RunState::Start => 2,
        RunState::LoggingIn { .. } => 2,
        RunState::LoadingPrices { .. } => 2,
        RunState::ReadingCurrent { .. } => 2,
        RunState::Writing { retried, .. } => if retried {
            0
        } else {
            1
        },
        RunState::Waiting { retried, .. } => if retried {
            0
        } else {
            1
        },
        RunState::Verifying { retried, .. } => if retried {
            0
        } else {
            1
        },
        RunState::Relogging { .. } => 1,
        RunState::LoggingOut => 0,
        RunState::Done => 0,
    }
}

proof fn lemma_step_budget(config: Config, state: RunState, event: Event)
    requires
        accepts(state, event),
    ensures
        ({
            let (s, a) = next(config, state, event);
            (if a is WritePowerLimit {
                1nat
            } else {
                0nat
            }) + write_budget(s) <= write_budget(state)
        }),
{
}

proof fn lemma_run_budget(config: Config, state: RunState, events: Seq<Event>)
    ensures
        count_writes(run_from(config, state, events)) <= write_budget(state),
    decreases events.len(),
{
    if events.len() > 0 && accepts(state, events[0]) {
        let (s, a) = next(config, state, events[0]);
        let rest = run_from(config, s, events.drop_first());
        lemma_step_budget(config, state, events[0]);
        lemma_run_budget(config, s, events.drop_first());
        let all = seq![a] + rest;
        assert(all[0] == a);
        assert(all.drop_first() =~= rest);
    }
}

/// A run writes the power limit at most twice: once, and once more after a
/// new login if that write could not be confirmed.
pub proof fn law_at_most_two_writes(config: Config, events: Seq<Event>)
    ensures
        count_writes(run_from(config, RunState::Start, events)) <= 2,
{
    lemma_run_budget(config, RunState::Start, events);
}

/// A write is sent only where the power limit read from the inverter differs
/// from the desired one, and it sends the desired one.
pub proof fn law_write_only_on_change(config: Config, sid: String, desired: u32, current: u32)
    ensures
        ({
            let (s, a) = next(
                config,
                RunState::ReadingCurrent { sid, desired },
                Event::PowerLimit(Ok(current)),
            );
            &&& (a is WritePowerLimit <==> current != desired)
            &&& (a matches Action::WritePowerLimit { watts, .. } ==> watts == desired)
            &&& (current == desired ==> a == Action::Logout { sid })
        }),
{
}

/// An accepted write is followed by a wait of `VERIFY_DELAY_SECS`, and the
/// wait by a read-back; the write counts as done only where the value read
/// back equals the value sent.
pub proof fn law_write_is_verified(
    config: Config,
    sid: String,
    desired: u32,
    retried: bool,
    actual: u32,
)
    ensures
        next(config, RunState::Writing { sid, desired, retried }, Event::Written(Ok(())))
            == (RunState::Waiting { sid, desired, retried }, Action::Wait { secs: VERIFY_DELAY_SECS }),
        next(config, RunState::Waiting { sid, desired, retried }, Event::Waited) == (
            RunState::Verifying { sid, desired, retried },
            Action::ReadPowerLimit { sid },
        ),
        next(config, RunState::Verifying { sid, desired, retried }, Event::PowerLimit(Ok(actual))).0
            is LoggingOut <==> actual == desired,
{
}

/// What may follow a write: the wait before the read-back, a new login for
/// the retry, or the end of the run with an error.
pub open spec fn may_follow_write(a: Action) -> bool {
    ||| a == Action::Wait { secs: VERIFY_DELAY_SECS }
    ||| a is Login
    ||| a matches Action::Finish(Err(_))
}

proof fn lemma_write_leads_to_writing(config: Config, state: RunState, event: Event)
    requires
        accepts(state, event),
        next(config, state, event).1 is WritePowerLimit,
    ensures
        next(config, state, event).0 is Writing,
{
}

proof fn lemma_after_writing(config: Config, state: RunState, event: Event)
    requires
        state is Writing,
        accepts(state, event),
    ensures
        may_follow_write(next(config, state, event).1),
{
}

proof fn lemma_run_after_write(config: Config, state: RunState, events: Seq<Event>, k: int)
    requires
        0 <= k,
        k + 1 < run_from(config, state, events).len(),
        run_from(config, state, events)[k] is WritePowerLimit,
    ensures
        may_follow_write(run_from(config, state, events)[k + 1]),
    decreases events.len(),
{
    let (s, a) = next(config, state, events[0]);
    let rest = run_from(config, s, events.drop_first());
    assert(run_from(config, state, events) =~= seq![a] + rest);
    if k == 0 {
        lemma_write_leads_to_writing(config, state, events[0]);
        let evs = events.drop_first();
        lemma_after_writing(config, s, evs[0]);
        assert(rest =~= seq![next(config, s, evs[0]).1] + run_from(
            config,
            next(config, s, evs[0]).0,
            evs.drop_first(),
        ));
    } else {
        lemma_run_after_write(config, s, events.drop_first(), k - 1);
    }
}

/// In every run, each write is followed by the wait before its read-back, by
/// a new login for the retry, or by the end of the run with an error: never
/// by another write and never by a logout.
pub proof fn law_each_write_followed_by_check(config: Config, events: Seq<Event>, k: int)
    requires
        0 <= k,
        k + 1 < run_from(config, RunState::Start, events).len(),
        run_from(config, RunState::Start, events)[k] is WritePowerLimit,
    ensures
        may_follow_write(run_from(config, RunState::Start, events)[k + 1]),
{
    lemma_run_after_write(config, RunState::Start, events, k);
}

proof fn lemma_run_finish_last(config: Config, state: RunState, events: Seq<Event>, k: int)
    requires
        0 <= k < run_from(config, state, events).len(),
        run_from(config, state, events)[k] is Finish,
    ensures
        k == run_from(config, state, events).len() - 1,
    decreases events.len(),
{
    let (s, a) = next(config, state, events[0]);
    let rest = run_from(config, s, events.drop_first());
    assert(run_from(config, state, events) =~= seq![a] + rest);
    if k == 0 {
        assert(s is Done);
        assert(rest.len() == 0);
    } else {
        lemma_run_finish_last(config, s, events.drop_first(), k - 1);
    }
}

/// A run finishes once, with its last action: after `Finish` no event is
/// taken.
pub proof fn law_finish_is_last(config: Config, events: Seq<Event>, k: int)
    requires
        0 <= k < run_from(config, RunState::Start, events).len(),
        run_from(config, RunState::Start, events)[k] is Finish,
    ensures
        k == run_from(config, RunState::Start, events).len() - 1,
{
    lemma_run_finish_last(config, RunState::Start, events, k);
}

} // verus!

verus! {

/// For a configuration that passes validation, the desired power limit is
/// either the configured limit or full power, and never zero: a price below
/// the threshold gives the limit, any other price full power.
pub proof fn law_desired_is_limit_or_full(config: Config, slots: Seq<PriceSlot>, now: TimeOfDay)
    requires
        config.check() is Ok,
    ensures
        desired_outcome(config, slots, now) matches Ok(w) ==> {
            &&& 0 < w <= config.inverter.max_power_watts
            &&& (w == config.control.limit_power_watts || w == config.inverter.max_power_watts)
        },
        desired_outcome(config, slots, now) is Err <==> slot_index_from(slots, now, 0) is None,
{
}

/// The value is one of the two setpoints of the configuration.
pub open spec fn is_setpoint(config: Config, watts: u32) -> bool {
    watts == config.control.limit_power_watts || watts == config.inverter.max_power_watts
}

/// Every desired value that `state` carries is a setpoint.
pub open spec fn state_setpoints_ok(config: Config, state: RunState) -> bool {
    match state {
        RunState::ReadingCurrent { desired, .. } => is_setpoint(config, desired),
        RunState::Writing { desired, .. } => is_setpoint(config, desired),
        RunState::Waiting { desired, .. } => is_setpoint(config, desired),
        RunState::Verifying { desired, .. } => is_setpoint(config, desired),
        RunState::Relogging { desired } => is_setpoint(config, desired),
        _ => true,
    }
}

proof fn lemma_step_setpoints(config: Config, state: RunState, event: Event)
    requires
        accepts(state, event),
        state_setpoints_ok(config, state),
    ensures
        state_setpoints_ok(config, next(config, state, event).0),
        next(config, state, event).1 matches Action::WritePowerLimit { watts, .. } ==> is_setpoint(
            config,
            watts,
        ),
{
}

proof fn lemma_run_setpoints(config: Config, state: RunState, events: Seq<Event>, k: int)
    requires
        state_setpoints_ok(config, state),
        0 <= k < run_from(config, state, events).len(),
    ensures
        run_from(config, state, events)[k] matches Action::WritePowerLimit { watts, .. }
            ==> is_setpoint(config, watts),
    decreases events.len(),
{
    let (s, a) = next(config, state, events[0]);
    let rest = run_from(config, s, events.drop_first());
    assert(run_from(config, state, events) =~= seq![a] + rest);
    lemma_step_setpoints(config, state, events[0]);
    if k > 0 {
        lemma_run_setpoints(config, s, events.drop_first(), k - 1);
    }
}

/// Whatever the inverter answers, a run writes no value but the configured
/// limit or full power.
pub proof fn law_writes_only_setpoints(config: Config, events: Seq<Event>, k: int)
    requires
        0 <= k < run_from(config, RunState::Start, events).len(),
    ensures
        run_from(config, RunState::Start, events)[k] matches Action::WritePowerLimit { watts, .. }
            ==> is_setpoint(config, watts),
{
    lemma_run_setpoints(config, RunState::Start, events, k);
}

} // verus!

verus! {

/// The session id that a run state holds, if any.
pub open spec fn state_sid(s: RunState) -> Option<String> {
    match s {
        RunState::LoadingPrices { sid } => Some(sid),
        RunState::ReadingCurrent { sid, .. } => Some(sid),
        RunState::Writing { sid, .. } => Some(sid),
        RunState::Waiting { sid, .. } => Some(sid),
        RunState::Verifying { sid, .. } => Some(sid),
        _ => None,
    }
}

/// The session id that an action uses, if any.
pub open spec fn action_sid(a: Action) -> Option<String> {
    match a {
        Action::ReadPowerLimit { sid } => Some(sid),
        Action::WritePowerLimit { sid, .. } => Some(sid),
        Action::Logout { sid } => Some(sid),
        _ => None,
    }
}

/// The desired value that a run state holds, if any.
pub open spec fn state_desired(s: RunState) -> Option<u32> {
    match s {
        RunState::ReadingCurrent { desired, .. } => Some(desired),
        RunState::Writing { desired, .. } => Some(desired),
        RunState::Waiting { desired, .. } => Some(desired),
        RunState::Verifying { desired, .. } => Some(desired),
        RunState::Relogging { desired } => Some(desired),
        _ => None,
    }
}

/// Through a write, its wait and its read-back, the run keeps its session
/// and its desired value: every later state that holds a session holds the
/// same one, every action uses it, and the desired value stays. Only a failed
/// attempt drops the session (to log in again for the retry).
pub proof fn law_write_phase_keeps_session(config: Config, state: RunState, event: Event)
    requires
        state is Writing || state is Waiting || state is Verifying,
        accepts(state, event),
    ensures
        ({
            let (s, a) = next(config, state, event);
            &&& (state_sid(s) is Some ==> state_sid(s) == state_sid(state))
            &&& (action_sid(a) is Some ==> action_sid(a) == state_sid(state))
            &&& (state_desired(s) is Some ==> state_desired(s) == state_desired(state))
            &&& (state_sid(s) is None ==> (s is Relogging || s is LoggingOut || s is Done))
        }),
{
}

/// A run's session changes only by a login: where a step leaves a state
/// holding another session than before, the event was a successful login
/// that gave that session.
pub proof fn law_session_changes_only_by_login(config: Config, state: RunState, event: Event)
    requires
        accepts(state, event),
        state_sid(next(config, state, event).0) is Some,
        state_sid(next(config, state, event).0) != state_sid(state),
    ensures
        event matches Event::LoggedIn(Ok(sid)) && state_sid(next(config, state, event).0)
            == Some(sid),
{
}

} // verus!

verus! {

/// For a configuration that passes validation, the desired power limit is the
/// configured limit exactly when the slot's price is below the configured
/// threshold (as rational numbers), and full power exactly when it is not.
pub proof fn law_limit_exactly_below_threshold(config: Config, price: Decimal)
    requires
        config.check() is Ok,
    ensures
        (target_watts(config, price) == config.control.limit_power_watts) <==> price.spec_lt(
            config.control.price_threshold_eur_mwh,
        ),
        (target_watts(config, price) == config.inverter.max_power_watts) <==> !price.spec_lt(
            config.control.price_threshold_eur_mwh,
        ),
{
}

} // verus!
