use sma_controller::clock::TimeOfDay;
use sma_controller::config::{Config, ControlConfig, InverterConfig};
use sma_controller::controller::{
    desired_power_watts, prices_loaded, step, Action, Event, PriceFileError, RunError, RunState,
    SetError,
};
use sma_controller::csv_parser::{CsvError, PriceSlot};
use sma_controller::decimal::Decimal;
use sma_controller::inverter::{InverterError, VERIFY_DELAY_SECS};

fn config() -> Config {
    Config {
        inverter: InverterConfig {
            host: "h".to_string(),
            port: 1,
            right: "r".to_string(),
            password: "p".to_string(),
            max_power_watts: 180000,
        },
        control: ControlConfig {
            csv_dir: "/tmp".to_string(),
            price_threshold_eur_mwh: Decimal { negative: false, magnitude: 80, scale: 0 },
            limit_power_watts: 500,
            poll_interval_secs: 60,
        },
    }
}

fn t(h: u32, m: u32) -> TimeOfDay {
    TimeOfDay::from_hms(h, m, 0).unwrap()
}

fn slot(h: u32, m: u32, magnitude: u64, scale: u8, negative: bool) -> PriceSlot {
    PriceSlot {
        start: t(h, m),
        end: TimeOfDay { secs: t(h, m).secs + 900 },
        price_eur_mwh: Decimal { negative, magnitude, scale },
    }
}

fn slots() -> Vec<PriceSlot> {
    vec![
        slot(10, 0, 7999, 2, false),
        slot(10, 15, 80, 0, false),
        slot(10, 30, 8001, 2, false),
        slot(10, 45, 5, 0, true),
    ]
}

fn sid() -> String {
    "S".to_string()
}

/// Runs the machine over `events` from the start, returning every action.
fn run(events: Vec<Event>) -> (RunState, Vec<Action>) {
    let c = config();
    let mut state = RunState::Start;
    let mut actions = Vec::new();
    for e in events {
        let (s, a) = step(&c, state, e);
        state = s;
        actions.push(a);
    }
    (state, actions)
}

fn loaded(at: TimeOfDay) -> Event {
    Event::PricesLoaded { slots: Ok(slots()), now: at }
}

#[test]
fn below_threshold_limits_and_otherwise_full_power() {
    let c = config();
    let s = slots();
    assert_eq!(desired_power_watts(&c, &s, t(10, 5)), Ok(500));
    assert_eq!(desired_power_watts(&c, &s, t(10, 20)), Ok(180000));
    assert_eq!(desired_power_watts(&c, &s, t(10, 40)), Ok(180000));
    assert_eq!(desired_power_watts(&c, &s, t(10, 50)), Ok(500));
    assert_eq!(desired_power_watts(&c, &s, t(11, 0)), Err(RunError::NoSlotForTime(t(11, 0))));
}

#[test]
fn no_write_when_already_at_desired() {
    let (state, actions) = run(vec![
        Event::Begin,
        Event::LoggedIn(Ok(sid())),
        loaded(t(10, 5)),
        Event::PowerLimit(Ok(500)),
        Event::LoggedOut,
    ]);
    assert_eq!(
        actions,
        vec![
            Action::Login,
            Action::LoadPrices,
            Action::ReadPowerLimit { sid: sid() },
            Action::Logout { sid: sid() },
            Action::Finish(Ok(())),
        ]
    );
    assert_eq!(state, RunState::Done);
}

#[test]
fn write_is_waited_for_and_read_back() {
    let (state, actions) = run(vec![
        Event::Begin,
        Event::LoggedIn(Ok(sid())),
        loaded(t(10, 20)),
        Event::PowerLimit(Ok(500)),
        Event::Written(Ok(())),
        Event::Waited,
        Event::PowerLimit(Ok(180000)),
        Event::LoggedOut,
    ]);
    assert_eq!(
        actions,
        vec![
            Action::Login,
            Action::LoadPrices,
            Action::ReadPowerLimit { sid: sid() },
            Action::WritePowerLimit { sid: sid(), watts: 180000 },
            Action::Wait { secs: VERIFY_DELAY_SECS },
            Action::ReadPowerLimit { sid: sid() },
            Action::Logout { sid: sid() },
            Action::Finish(Ok(())),
        ]
    );
    assert_eq!(state, RunState::Done);
}

#[test]
fn failed_check_logs_in_again_and_retries_once() {
    let (state, actions) = run(vec![
        Event::Begin,
        Event::LoggedIn(Ok(sid())),
        loaded(t(10, 5)),
        Event::PowerLimit(Ok(180000)),
        Event::Written(Ok(())),
        Event::Waited,
        Event::PowerLimit(Ok(180000)),
        Event::LoggedIn(Ok("T".to_string())),
        Event::Written(Err(InverterError::Rejected)),
    ]);
    assert_eq!(
        actions,
        vec![
            Action::Login,
            Action::LoadPrices,
            Action::ReadPowerLimit { sid: sid() },
            Action::WritePowerLimit { sid: sid(), watts: 500 },
            Action::Wait { secs: 5 },
            Action::ReadPowerLimit { sid: sid() },
            Action::Login,
            Action::WritePowerLimit { sid: "T".to_string(), watts: 500 },
            Action::Finish(Err(RunError::SetFailed(SetError::Write(InverterError::Rejected)))),
        ]
    );
    assert_eq!(state, RunState::Done);
    assert_eq!(
        actions.iter().filter(|a| matches!(a, Action::WritePowerLimit { .. })).count(),
        2
    );
}

#[test]
fn retry_that_succeeds() {
    let (_, actions) = run(vec![
        Event::Begin,
        Event::LoggedIn(Ok(sid())),
        loaded(t(10, 5)),
        Event::PowerLimit(Ok(180000)),
        Event::Written(Err(InverterError::HttpStatus(401))),
        Event::LoggedIn(Ok("T".to_string())),
        Event::Written(Ok(())),
        Event::Waited,
        Event::PowerLimit(Ok(500)),
        Event::LoggedOut,
    ]);
    assert_eq!(actions[4], Action::Login);
    assert_eq!(actions[5], Action::WritePowerLimit { sid: "T".to_string(), watts: 500 });
    assert_eq!(actions[8], Action::Logout { sid: "T".to_string() });
    assert_eq!(actions[9], Action::Finish(Ok(())));
}

#[test]
fn mismatch_after_retry_fails() {
    let (_, actions) = run(vec![
        Event::Begin,
        Event::LoggedIn(Ok(sid())),
        loaded(t(10, 5)),
        Event::PowerLimit(Ok(180000)),
        Event::Written(Err(InverterError::MalformedReply)),
        Event::LoggedIn(Ok(sid())),
        Event::Written(Ok(())),
        Event::Waited,
        Event::PowerLimit(Ok(499)),
    ]);
    assert_eq!(
        actions[8],
        Action::Finish(Err(RunError::SetFailed(SetError::Mismatch { sent: 500, actual: 499 })))
    );
}

#[test]
fn read_back_failure_after_retry() {
    let (_, actions) = run(vec![
        Event::Begin,
        Event::LoggedIn(Ok(sid())),
        loaded(t(10, 5)),
        Event::PowerLimit(Ok(180000)),
        Event::Written(Ok(())),
        Event::Waited,
        Event::PowerLimit(Err(InverterError::ParamNotFound)),
        Event::LoggedIn(Ok(sid())),
        Event::Written(Ok(())),
        Event::Waited,
        Event::PowerLimit(Err(InverterError::ParamNotFound)),
    ]);
    assert_eq!(actions[6], Action::Login);
    assert_eq!(
        actions[10],
        Action::Finish(Err(RunError::SetFailed(SetError::Verify(InverterError::ParamNotFound))))
    );
}

#[test]
fn relogin_failure() {
    let (_, actions) = run(vec![
        Event::Begin,
        Event::LoggedIn(Ok(sid())),
        loaded(t(10, 5)),
        Event::PowerLimit(Ok(1)),
        Event::Written(Err(InverterError::Rejected)),
        Event::LoggedIn(Err(InverterError::EmptySid)),
    ]);
    assert_eq!(actions[5], Action::Finish(Err(RunError::Relogin(InverterError::EmptySid))));
}

#[test]
fn early_failures() {
    let (_, a) = run(vec![Event::Begin, Event::LoggedIn(Err(InverterError::HttpStatus(401)))]);
    assert_eq!(a[1], Action::Finish(Err(RunError::Login(InverterError::HttpStatus(401)))));

    let (_, a) = run(vec![
        Event::Begin,
        Event::LoggedIn(Ok(sid())),
        Event::PricesLoaded { slots: Err(PriceFileError::Unreadable), now: t(10, 0) },
    ]);
    assert_eq!(a[2], Action::Finish(Err(RunError::PriceFile(PriceFileError::Unreadable))));

    let (_, a) = run(vec![
        Event::Begin,
        Event::LoggedIn(Ok(sid())),
        Event::PricesLoaded { slots: Err(PriceFileError::Invalid(CsvError::NoSlots)), now: t(10, 0) },
    ]);
    assert_eq!(
        a[2],
        Action::Finish(Err(RunError::PriceFile(PriceFileError::Invalid(CsvError::NoSlots))))
    );

    let (_, a) = run(vec![Event::Begin, Event::LoggedIn(Ok(sid())), loaded(t(9, 0))]);
    assert_eq!(a[2], Action::Finish(Err(RunError::NoSlotForTime(t(9, 0)))));

    let (_, a) = run(vec![
        Event::Begin,
        Event::LoggedIn(Ok(sid())),
        loaded(t(10, 0)),
        Event::PowerLimit(Err(InverterError::MissingResult)),
    ]);
    assert_eq!(a[3], Action::Finish(Err(RunError::ReadCurrent(InverterError::MissingResult))));
}

#[test]
fn prices_event_carries_the_slots_and_a_time_of_day() {
    match prices_loaded(Ok(slots())) {
        Event::PricesLoaded { slots: Ok(v), now } => {
            assert_eq!(v, slots());
            assert!(now.secs < 86400);
        },
        other => panic!("unexpected {:?}", other),
    }
}
