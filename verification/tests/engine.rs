use wattdog::action::http::{ActionClient, ActionPlan};
use wattdog::calendar::UtcTime;
use wattdog::clock::{Duration, Instant};
use wattdog::config::{
    ActionStepConfig, BinaryState, ComparisonOp, Config, DataConfig, HttpConfig, HttpMethod,
    MeasurementField, MetricsConfig, RollPeriod, StateConfig, TransitionConfig, WaitTimeoutPolicy,
};
use wattdog::float::{Double, Single};
use wattdog::metrics::{Metrics, ReadingValue, Series};
use wattdog::sample::Sample;
use wattdog::state::engine::{SerialError, StateEngine};
use wattdog::state::machine::ActionOutcome;

const START: Instant = Instant {
    nanos: 1_000_000_000_000,
};

fn single(value: f32) -> Single {
    Single {
        bits: value.to_bits(),
    }
}

fn double(value: f64) -> Double {
    Double {
        bits: value.to_bits(),
    }
}

const SERIAL: u64 = 12_345;

#[test]
fn new_parses_serial_and_rejects_invalid_serial() {
    assert_eq!(
        StateEngine::new(&config("12345")).expect("engine").states[0].serial,
        SERIAL
    );
    assert!(StateEngine::new(&config("nope")).is_err());
}

#[test]
fn observe_sample_routes_by_serial() {
    let now = START;
    let mut engine = StateEngine::new(&config("12345")).expect("engine");

    let mut metrics = Metrics::new("test");

    engine.observe_sample(&sample(999, 11.0), &mut metrics, now);
    assert_eq!(engine.states[0].latest_value, None);

    engine.observe_sample(&sample(SERIAL, 11.0), &mut metrics, now);
    assert_eq!(engine.states[0].latest_value, Some(double(11.0)));
}

#[test]
fn dry_run_tick_records_applied_state() {
    let now = START;
    let config = config("12345");
    let client = ActionClient::new(&config.http, true);
    let mut metrics = Metrics::new("test");
    let mut engine = StateEngine::new(&config).expect("engine");

    engine.observe_sample(&sample(SERIAL, 11.0), &mut metrics, now);
    let action = engine
        .collect_due_actions(&mut metrics, now)
        .pop()
        .expect("due action");
    let outcome = match client.execute(&action.action, action.deadline, now) {
        ActionPlan::Done(outcome) => outcome,
        ActionPlan::Send(_) => panic!("a dry run sends nothing"),
    };
    engine.record_action_result(&action, outcome, &mut metrics, now);

    assert_eq!(engine.states[0].applied_state, Some(BinaryState::On));
}

#[test]
fn transition_metric_counts_only_successful_apply() {
    let now = START;
    let config = config("12345");
    let mut metrics = Metrics::new("test");
    let mut engine = StateEngine::new(&config).expect("engine");

    engine.observe_sample(&sample(SERIAL, 11.0), &mut metrics, now);
    let mut actions = engine.collect_due_actions(&mut metrics, now);
    assert!(
        !metrics
            .encode()
            .expect("metrics")
            .contains("state_transitions")
    );

    let action = actions.pop().expect("due action");
    engine.record_action_result(
        &action,
        ActionOutcome::Success { status: 204 },
        &mut metrics,
        now,
    );

    assert!(
        metrics
            .encode()
            .expect("metrics")
            .contains("wattdog_state_transitions_total{name=\"relay\",target=\"on\"} 1")
    );
}

#[test]
fn polling_response_after_deadline_uses_timeout_policy() {
    let now = START;
    let mut config = config("12345");
    config.states[0].on.url = None;
    config.states[0].on.actions = vec![ActionStepConfig::WaitForJson {
        url: "http://127.0.0.1/atx".to_string(),
        pointer: "/result/leds/power".to_string(),
        expected: "false".to_string(),
        poll_every: Duration::from_secs(1),
        timeout: Duration::from_secs(1),
        on_timeout: WaitTimeoutPolicy::Continue,
    }];
    let mut metrics = Metrics::new("test");
    let mut engine = StateEngine::new(&config).expect("engine");
    engine.observe_sample(&sample(SERIAL, 11.0), &mut metrics, now);
    let action = engine
        .collect_due_actions(&mut metrics, now)
        .pop()
        .expect("due action");

    engine.record_action_result(
        &action,
        ActionOutcome::Failure {
            status: None,
            error: Some("timeout".to_string()),
        },
        &mut metrics,
        now.plus(Duration::from_secs(1)),
    );

    assert_eq!(engine.states[0].applied_state, Some(BinaryState::On));
    let encoded = metrics.encode().expect("metrics");
    assert!(
        encoded.contains("wattdog_action_wait_timeouts_total{name=\"relay\",target=\"on\"} 1")
    );
    assert!(
        encoded.contains("wattdog_state_transitions_total{name=\"relay\",target=\"on\"} 1")
    );
}

fn config(serial: &str) -> Config {
    Config {
        data: DataConfig {
            dir: String::new(),
            roll: RollPeriod::Hourly,
        },
        metrics: MetricsConfig::default(),
        http: HttpConfig {
            method: HttpMethod::Post,
            timeout: Duration::from_secs(1),
            retry_initial: Duration::from_millis(1),
            retry_max: Duration::from_millis(1),
            require_https: false,
            allow_invalid_certs: false,
        },
        states: vec![StateConfig {
            name: "relay".to_string(),
            serial: serial.to_string(),
            field: MeasurementField::Voltage1Volts,
            default_state: BinaryState::Off,
            stale_after: Duration::from_secs(30),
            on: transition(ComparisonOp::Le, 12.0, "http://127.0.0.1/on"),
            off: transition(ComparisonOp::Ge, 12.6, "http://127.0.0.1/off"),
        }],
    }
}

fn transition(op: ComparisonOp, value: f64, url: &str) -> TransitionConfig {
    TransitionConfig {
        op,
        value: double(value),
        duration: Duration::zero(),
        hold_for: Duration::zero(),
        url: Some(url.to_string()),
        actions: Vec::new(),
    }
}

fn sample(serial: u64, voltage1_volts: f32) -> Sample {
    Sample {
        schema_version: 1,
        observed_at: UtcTime { secs: 1_782_000_000, nanos: 0 },
        serial,
        address_raw: 0,
        address_display: None,
        address_kind: None,
        name: None,
        model: None,
        firmware_version_bcd: 0,
        firmware_version: None,
        hardware_revision_bcd: 0,
        hardware_revision: None,
        device_time_raw: 0,
        flags_raw: 0,
        voltage1_volts: single(voltage1_volts),
        voltage2_volts: single(0.0),
        current_amps: single(0.0),
        power_watts: single(0.0),
        coulomb_meter_raw: single(0.0),
        power_meter_raw: single(0.0),
        temperature_celsius: single(0.0),
        temperature_is_external: false,
        power_status_code: 0,
        power_status: None,
        soc_raw: 0,
        soc_percent: None,
        runtime_raw: 0,
        runtime_minutes: None,
        rssi_dbm: 0,
    }
}

#[test]
fn serial_error_names_the_first_state_at_fault() {
    let mut several = config("12345");
    several.states.push(config("0x10").states.remove(0));
    several.states.push(config("").states.remove(0));
    assert_eq!(
        StateEngine::new(&several).err(),
        Some(SerialError { index: 1 })
    );
}

#[test]
fn due_actions_come_in_the_order_of_the_states() {
    let now = START;
    let mut several = config("12345");
    several.states.push(config("999").states.remove(0));
    several.states.push(config("12345").states.remove(0));
    several.states[0].name = "first".to_string();
    several.states[2].name = "third".to_string();
    let mut metrics = Metrics::new("test");
    let mut engine = StateEngine::new(&several).expect("engine");
    engine.observe_sample(&sample(SERIAL, 11.0), &mut metrics, now);
    let due = engine.collect_due_actions(&mut metrics, now);
    let names: Vec<(usize, &str)> = due
        .iter()
        .map(|action| (action.state_index, action.state_name.as_str()))
        .collect();
    assert_eq!(names, vec![(0, "first"), (2, "third")]);
    assert_eq!(due[0].deadline, None);
}

#[test]
fn a_poll_is_due_with_its_deadline() {
    let now = START;
    let mut polling = config("12345");
    polling.states[0].on.url = None;
    polling.states[0].on.actions = vec![ActionStepConfig::WaitForJson {
        url: "http://127.0.0.1/atx".to_string(),
        pointer: "/result".to_string(),
        expected: "true".to_string(),
        poll_every: Duration::from_secs(1),
        timeout: Duration::from_secs(7),
        on_timeout: WaitTimeoutPolicy::Retry,
    }];
    let mut metrics = Metrics::new("test");
    let mut engine = StateEngine::new(&polling).expect("engine");
    engine.observe_sample(&sample(SERIAL, 11.0), &mut metrics, now);
    let due = engine.collect_due_actions(&mut metrics, now);
    assert_eq!(due[0].deadline, Some(now.plus(Duration::from_secs(7))));

    let later = now.plus(Duration::from_secs(7));
    assert!(engine.collect_due_actions(&mut metrics, later).is_empty());
    assert!(metrics
        .encode()
        .expect("metrics")
        .contains("wattdog_action_wait_timeouts_total{name=\"relay\",target=\"on\"} 1"));
    assert_eq!(
        engine.states[0].next_retry_at,
        Some(later.plus(Duration::from_millis(1)))
    );
}

#[test]
fn a_result_for_an_unknown_state_changes_nothing() {
    let now = START;
    let mut metrics = Metrics::new("test");
    let mut engine = StateEngine::new(&config("12345")).expect("engine");
    engine.observe_sample(&sample(SERIAL, 11.0), &mut metrics, now);
    let mut action = engine
        .collect_due_actions(&mut metrics, now)
        .pop()
        .expect("due action");
    action.state_index = 1;
    let before = metrics.encode().expect("metrics");
    engine.record_action_result(
        &action,
        ActionOutcome::Success { status: 204 },
        &mut metrics,
        now,
    );
    assert_eq!(engine.states[0].applied_state, None);
    assert_eq!(metrics.encode().expect("metrics"), before);
}

#[test]
fn a_tick_shows_the_status_of_a_state() {
    let now = START;
    let mut metrics = Metrics::new("test");
    let mut engine = StateEngine::new(&config("12345")).expect("engine");
    engine.observe_sample(&sample(SERIAL, 11.0), &mut metrics, now);
    metrics.take_readings();
    let later = now.plus(Duration::from_secs(2));
    let action = engine
        .collect_due_actions(&mut metrics, later)
        .pop()
        .expect("due action");
    let text = metrics.encode().expect("metrics");
    for line in [
        "wattdog_state_stale{name=\"relay\"} 0\n",
        "wattdog_state_ambiguous{name=\"relay\"} 0\n",
        "wattdog_state_desired{name=\"relay\"} 1\n",
        "wattdog_state_applied{name=\"relay\"} -1\n",
        "wattdog_state_pending{name=\"relay\"} 1\n",
        "wattdog_http_pending{name=\"relay\"} 1\n",
        "wattdog_state_default{name=\"relay\"} 0\n",
        "wattdog_action_sequence_step{name=\"relay\"} 0\n",
    ] {
        assert!(text.contains(line), "{line} in {text}");
    }
    assert!(!text.contains("http://"));
    let readings = metrics.take_readings();
    assert_eq!(readings.len(), 2);
    assert_eq!(readings[0].series, Series::StateInputAge);
    assert_eq!(
        readings[0].value,
        ReadingValue::Seconds(Duration::from_secs(2))
    );
    assert_eq!(readings[1].series, Series::HttpRetryDelay);
    assert_eq!(readings[1].value, ReadingValue::Seconds(Duration::zero()));

    engine.record_action_result(
        &action,
        ActionOutcome::Failure {
            status: Some(503),
            error: None,
        },
        &mut metrics,
        later,
    );
    let text = metrics.encode().expect("metrics");
    assert!(text.contains(
        "wattdog_http_attempts_total{name=\"relay\",target=\"on\",result=\"failure\"} 1\n"
    ));
    let readings = metrics.take_readings();
    assert_eq!(readings[0].series, Series::HttpLastStatusCode);
    assert_eq!(readings[0].value, ReadingValue::Integer(503));
    assert_eq!(
        readings[1].value,
        ReadingValue::Seconds(Duration::from_millis(1))
    );
}
