use wattdog::clock::Duration;
use wattdog::config::{
    default_http_timeout, default_retry_initial, default_retry_max, judge_scheme, ActionProblem,
    ActionStepConfig, BinaryState, ComparisonOp, Config, ConfigError, DataConfig, HttpConfig,
    HttpMethod, MeasurementField, MetricsConfig, RollPeriod, StateConfig, StateProblem,
    TransitionConfig, WaitTimeoutPolicy,
};
use wattdog::float::Double;

fn transition(op: ComparisonOp, value: f64, duration: Duration, url: &str) -> TransitionConfig {
    TransitionConfig {
        op,
        value: Double {
            bits: value.to_bits(),
        },
        duration,
        hold_for: Duration::zero(),
        url: Some(url.to_string()),
        actions: Vec::new(),
    }
}

fn state(name: &str, serial: &str, on: &str, off: &str) -> StateConfig {
    StateConfig {
        name: name.to_string(),
        serial: serial.to_string(),
        field: MeasurementField::Voltage1Volts,
        default_state: BinaryState::Off,
        stale_after: Duration::from_secs(30),
        on: transition(ComparisonOp::Le, 12.0, Duration::from_secs(30), on),
        off: transition(ComparisonOp::Ge, 12.6, Duration::from_secs(300), off),
    }
}

fn valid() -> Config {
    Config {
        data: DataConfig {
            dir: "/var/lib/wattdog".to_string(),
            roll: RollPeriod::default(),
        },
        metrics: MetricsConfig::default(),
        http: HttpConfig {
            method: HttpMethod::Post,
            timeout: default_http_timeout(),
            retry_initial: default_retry_initial(),
            retry_max: default_retry_max(),
            require_https: false,
            allow_invalid_certs: false,
        },
        states: vec![state(
            "battery_relay",
            "12345678",
            "http://127.0.0.1/on",
            "http://127.0.0.1/off",
        )],
    }
}

fn rejected(config: &Config) -> (ConfigError, String) {
    let error = config.validate().expect_err("config should be invalid");
    (error, error.message(config))
}

fn state_error(config: &Config) -> (StateProblem, String) {
    match rejected(config) {
        (ConfigError::State { index: 0, problem }, message) => (problem, message),
        other => panic!("unexpected {other:?}"),
    }
}

fn on_error(config: &Config) -> (ActionProblem, String) {
    match state_error(config) {
        (
            StateProblem::Transition {
                target: BinaryState::On,
                problem,
            },
            message,
        ) => (problem, message),
        other => panic!("unexpected {other:?}"),
    }
}

#[test]
fn valid_minimal_config_loads() {
    let config = valid();
    config.validate().expect("config should validate");
    assert_eq!(config.data.roll, RollPeriod::Hourly);
    assert_eq!(config.metrics.listen, "127.0.0.1:9107");
    assert_eq!(config.http.timeout, Duration::from_secs(5));
    assert_eq!(config.http.retry_initial, Duration::from_secs(1));
    assert_eq!(config.http.retry_max, Duration::from_secs(5));
}

#[test]
fn duplicate_state_names_rejected() {
    let mut config = valid();
    config.states.push(state(
        "battery_relay",
        "87654321",
        "http://127.0.0.1/on2",
        "http://127.0.0.1/off2",
    ));
    let (error, message) = rejected(&config);
    assert_eq!(
        error,
        ConfigError::State {
            index: 1,
            problem: StateProblem::NameDuplicate
        }
    );
    assert_eq!(message, "duplicate state name battery_relay");
}

#[test]
fn empty_states_rejected() {
    let mut config = valid();
    config.states.clear();
    let (error, message) = rejected(&config);
    assert_eq!(error, ConfigError::NoStates);
    assert_eq!(message, "at least one state is required");
}

#[test]
fn invalid_url_rejected() {
    let mut config = valid();
    config.states[0].on.url = Some("not a url".to_string());
    assert_eq!(on_error(&config).0, ActionProblem::InvalidUrl);
}

#[test]
fn require_https_rejects_http_action_url() {
    let mut config = valid();
    config.http.require_https = true;
    let (problem, message) = on_error(&config);
    assert_eq!(problem, ActionProblem::NotHttps);
    assert_eq!(message, "state battery_relay on URL must use https");
}

#[test]
fn retry_max_over_five_seconds_rejected() {
    let mut config = valid();
    config.http.retry_max = Duration::from_secs(6);
    let (error, message) = rejected(&config);
    assert_eq!(error, ConfigError::RetryMaxTooLong);
    assert_eq!(message, "http.retry_max must be <= 5s");
}

#[test]
fn retry_initial_over_retry_max_rejected() {
    let mut config = valid();
    config.http.retry_initial = Duration::from_secs(5);
    config.http.retry_max = Duration::from_secs(1);
    let (error, message) = rejected(&config);
    assert_eq!(error, ConfigError::RetryInitialAboveMax);
    assert_eq!(message, "http.retry_initial must be <= http.retry_max");
}

#[test]
fn overlapping_thresholds_rejected() {
    let mut config = valid();
    config.states[0].off.value = config.states[0].on.value;
    let (problem, message) = state_error(&config);
    assert_eq!(problem, StateProblem::Overlap);
    assert_eq!(message, "state battery_relay on/off thresholds overlap");
}

#[test]
fn zero_retry_delays_rejected() {
    let mut config = valid();
    config.http.retry_max = Duration::zero();
    assert_eq!(
        rejected(&config),
        (
            ConfigError::RetryMaxZero,
            "http.retry_max must be greater than zero".to_string()
        )
    );
    config.http.retry_initial = Duration::zero();
    assert_eq!(
        rejected(&config),
        (
            ConfigError::RetryInitialZero,
            "http.retry_initial must be greater than zero".to_string()
        )
    );
}

#[test]
fn state_rules_are_checked_in_order() {
    let mut config = valid();
    config.states[0].on.op = ComparisonOp::Gt;
    assert_eq!(
        state_error(&config),
        (
            StateProblem::SameDirection,
            "state battery_relay on/off thresholds must use opposite directions".to_string()
        )
    );
    config.states[0].stale_after = Duration::zero();
    assert_eq!(
        state_error(&config),
        (
            StateProblem::StaleAfterZero,
            "state battery_relay stale_after must be greater than zero".to_string()
        )
    );
    config.states[0].serial = "0xFF".to_string();
    assert_eq!(
        state_error(&config),
        (
            StateProblem::SerialInvalid,
            "state battery_relay serial must be an unsigned decimal integer".to_string()
        )
    );
    config.states[0].serial = " \t".to_string();
    assert_eq!(
        state_error(&config),
        (
            StateProblem::SerialEmpty,
            "state battery_relay serial must not be empty".to_string()
        )
    );
    config.states[0].name = "\u{a0} \n".to_string();
    assert_eq!(
        state_error(&config),
        (
            StateProblem::NameEmpty,
            "state name must not be empty".to_string()
        )
    );
}

#[test]
fn serials_are_decimal_numbers_of_64_bits() {
    let mut config = valid();
    for (serial, accepted) in [
        ("0", true),
        ("+7", true),
        ("007", true),
        ("18446744073709551615", true),
        ("18446744073709551616", false),
        ("-1", false),
        ("+", false),
        (" 1", false),
        ("1_000", false),
        ("١", false),
    ] {
        config.states[0].serial = serial.to_string();
        assert_eq!(config.validate().is_ok(), accepted, "{serial}");
    }
}

#[test]
fn thresholds_must_not_overlap() {
    let mut config = valid();
    let mut set = |on_op, on: f64, off_op, off: f64| {
        config.states[0].on.op = on_op;
        config.states[0].on.value = Double { bits: on.to_bits() };
        config.states[0].off.op = off_op;
        config.states[0].off.value = Double {
            bits: off.to_bits(),
        };
        config.validate().is_ok()
    };
    assert!(set(ComparisonOp::Lt, 12.0, ComparisonOp::Ge, 12.0));
    assert!(set(ComparisonOp::Le, 12.0, ComparisonOp::Gt, 12.0));
    assert!(!set(ComparisonOp::Le, 12.0, ComparisonOp::Ge, 12.0));
    assert!(!set(ComparisonOp::Lt, 12.1, ComparisonOp::Gt, 12.0));
    assert!(set(ComparisonOp::Ge, 3.0, ComparisonOp::Le, -3.0));
    assert!(!set(ComparisonOp::Le, -0.0, ComparisonOp::Ge, 0.0));
    assert!(set(ComparisonOp::Lt, -0.0, ComparisonOp::Ge, 0.0));
    assert!(set(ComparisonOp::Lt, 0.0, ComparisonOp::Gt, -0.0));
    assert!(set(ComparisonOp::Lt, 0.0, ComparisonOp::Ge, -0.0));
    assert!(!set(ComparisonOp::Le, 0.0, ComparisonOp::Ge, -0.0));
    assert!(!set(ComparisonOp::Lt, f64::MIN_POSITIVE, ComparisonOp::Gt, -0.0));
}

#[test]
fn transition_needs_one_kind_of_action() {
    let mut config = valid();
    config.states[0].on.url = None;
    assert_eq!(
        on_error(&config),
        (
            ActionProblem::Missing,
            "state battery_relay on needs a URL or a sequence of actions".to_string()
        )
    );
    config.states[0].on.actions = vec![
        ActionStepConfig::Delay {
            duration: Duration::from_secs(1),
        },
        ActionStepConfig::WaitForJson {
            url: "https://host/atx".to_string(),
            pointer: "/a".to_string(),
            expected: "1".to_string(),
            poll_every: Duration::from_secs(1),
            timeout: Duration::from_secs(9),
            on_timeout: WaitTimeoutPolicy::Continue,
        },
    ];
    assert!(config.validate().is_ok());
    config.states[0].on.actions.push(ActionStepConfig::Request {
        method: Some(HttpMethod::Put),
        url: "FTP://host/file".to_string(),
    });
    assert_eq!(
        on_error(&config),
        (
            ActionProblem::UnsupportedScheme,
            "state battery_relay on URL has unsupported scheme ftp".to_string()
        )
    );
    config.states[0].on.url = Some("http://127.0.0.1/on".to_string());
    assert_eq!(
        on_error(&config),
        (
            ActionProblem::UrlAndSequence,
            "state battery_relay on must not have both a URL and a sequence of actions"
                .to_string()
        )
    );
}

#[test]
fn off_transition_is_checked_after_on() {
    let mut config = valid();
    config.states[0].off.url = Some("mailto:a@b".to_string());
    assert_eq!(
        state_error(&config),
        (
            StateProblem::Transition {
                target: BinaryState::Off,
                problem: ActionProblem::UnsupportedScheme
            },
            "state battery_relay off URL has unsupported scheme mailto".to_string()
        )
    );
    config.states[0].off.url = Some("HTTPS://host".to_string());
    assert!(config.validate().is_ok());
}

#[test]
fn schemes_are_judged_by_name() {
    assert_eq!(judge_scheme(&"https".to_string(), true), None);
    assert_eq!(judge_scheme(&"http".to_string(), false), None);
    assert_eq!(
        judge_scheme(&"http".to_string(), true),
        Some(ActionProblem::NotHttps)
    );
    assert_eq!(
        judge_scheme(&"file".to_string(), false),
        Some(ActionProblem::UnsupportedScheme)
    );
}

#[test]
fn names_and_numbers_of_the_metrics() {
    assert_eq!(MeasurementField::Voltage1Volts.as_str(), "voltage1_volts");
    assert_eq!(MeasurementField::Voltage2Volts.as_str(), "voltage2_volts");
    assert_eq!(MeasurementField::CurrentAmps.as_str(), "current_amps");
    assert_eq!(MeasurementField::PowerWatts.as_str(), "power_watts");
    assert_eq!(BinaryState::On.as_str(), "on");
    assert_eq!(BinaryState::Off.as_str(), "off");
    assert_eq!(BinaryState::On.metric_value(), 1);
    assert_eq!(BinaryState::Off.metric_value(), 0);
}
