use wattdog::calendar::UtcTime;
use wattdog::clock::{Duration, Instant};
use wattdog::config::{
    ActionStepConfig, BinaryState, ComparisonOp, MeasurementField, StateConfig, TransitionConfig,
    WaitTimeoutPolicy,
};
use wattdog::float::{Double, Single};
use wattdog::sample::Sample;
use wattdog::state::machine::{backoff, ActionOutcome, RuntimeState, TickDecision};

const START: Instant = Instant {
    nanos: 1_000_000_000_000,
};

fn single(value: f32) -> Single {
    Single {
        bits: value.to_bits(),
    }
}

fn double(value: f64) -> Double {
    Double {
        bits: value.to_bits(),
    }
}

const SERIAL: u64 = 12_345;

#[test]
fn neutral_default_sets_desired_state() {
    let now = START;
    let mut state = runtime(
        config(Duration::from_secs(5), Duration::from_secs(5)),
        now,
        12.3,
    );

    assert_eq!(
        state.tick(now, Duration::from_secs(1), Duration::from_secs(5)),
        attempt(BinaryState::Off)
    );
    assert_eq!(state.desired_state, Some(BinaryState::Off));
}

#[test]
fn on_duration_does_not_apply_default_before_duration() {
    let now = START;
    let mut state = runtime(config(Duration::from_secs(5), Duration::zero()), now, 11.0);

    assert_eq!(
        state.tick(now, Duration::from_secs(1), Duration::from_secs(5)),
        TickDecision::Idle
    );
    assert_eq!(state.desired_state, None);
}

#[test]
fn zero_duration_immediately_sets_desired_state() {
    let now = START;
    let mut state = runtime(config(Duration::zero(), Duration::zero()), now, 11.0);

    assert_eq!(
        state.tick(now, Duration::from_secs(1), Duration::from_secs(5)),
        attempt(BinaryState::On)
    );
    assert_eq!(state.desired_state, Some(BinaryState::On));
}

#[test]
fn timer_resets_when_condition_becomes_false() {
    let now = START;
    let mut state = runtime(config(Duration::from_secs(5), Duration::zero()), now, 11.0);
    assert_eq!(
        state.tick(now, Duration::from_secs(1), Duration::from_secs(5)),
        TickDecision::Idle
    );

    state.observe_sample(&sample(12.3), now.plus(Duration::from_secs(1)));
    state.tick(
        now.plus(Duration::from_secs(1)),
        Duration::from_secs(1),
        Duration::from_secs(5),
    );
    assert_eq!(state.on_condition_started_at, None);
    state.applied_state = Some(BinaryState::Off);
    state.pending_target_state = None;

    state.observe_sample(&sample(11.0), now.plus(Duration::from_secs(2)));
    state.tick(
        now.plus(Duration::from_secs(2)),
        Duration::from_secs(1),
        Duration::from_secs(5),
    );
    assert_eq!(
        state.tick(
            now.plus(Duration::from_secs(6)),
            Duration::from_secs(1),
            Duration::from_secs(5)
        ),
        TickDecision::Idle
    );
    assert_eq!(state.desired_state, Some(BinaryState::Off));
}

#[test]
fn stale_blocks_new_decisions() {
    let now = START;
    let mut state = runtime(config(Duration::zero(), Duration::zero()), now, 11.0);

    assert_eq!(
        state.tick(
            now.plus(Duration::from_secs(31)),
            Duration::from_secs(1),
            Duration::from_secs(5)
        ),
        TickDecision::Idle
    );
    assert!(state.stale);
    assert_eq!(state.desired_state, None);
}

#[test]
fn stale_keeps_pending_retry_due() {
    let now = START;
    let mut state = runtime(config(Duration::zero(), Duration::zero()), now, 11.0);
    assert_eq!(
        state.tick(now, Duration::from_secs(1), Duration::from_secs(5)),
        attempt(BinaryState::On)
    );

    assert_eq!(
        state.tick(
            now.plus(Duration::from_secs(31)),
            Duration::from_secs(1),
            Duration::from_secs(5)
        ),
        attempt(BinaryState::On)
    );
    assert!(state.stale);
}

#[test]
fn failed_http_keeps_applied_unchanged() {
    let now = START;
    let mut state = RuntimeState::new(config(Duration::zero(), Duration::zero()), SERIAL);
    state.applied_state = Some(BinaryState::Off);
    state.desired_state = Some(BinaryState::On);
    assert_eq!(
        state.tick(now, Duration::from_secs(1), Duration::from_secs(5)),
        attempt(BinaryState::On)
    );

    state.record_action_result(
        BinaryState::On,
        0,
        ActionOutcome::Failure {
            status: Some(500),
            error: Some("nope".to_string()),
        },
        now,
        Duration::from_secs(1),
        Duration::from_secs(5),
    );

    assert_eq!(state.applied_state, Some(BinaryState::Off));
    assert_eq!(state.last_http_status, Some(500));
    assert_eq!(state.last_http_error.as_deref(), Some("nope"));
}

#[test]
fn success_updates_applied() {
    let now = START;
    let mut state = RuntimeState::new(config(Duration::zero(), Duration::zero()), SERIAL);
    state.desired_state = Some(BinaryState::On);
    assert_eq!(
        state.tick(now, Duration::from_secs(1), Duration::from_secs(5)),
        attempt(BinaryState::On)
    );

    state.record_action_result(
        BinaryState::On,
        0,
        ActionOutcome::Success { status: 204 },
        now,
        Duration::from_secs(1),
        Duration::from_secs(5),
    );

    assert_eq!(state.applied_state, Some(BinaryState::On));
    assert_eq!(state.pending_target_state, None);
    assert_eq!(state.last_success_at, Some(now));
}

#[test]
fn opposite_condition_does_not_replace_atomic_pending_target() {
    let now = START;
    let mut state = runtime(config(Duration::zero(), Duration::zero()), now, 11.0);
    state.tick(now, Duration::from_secs(1), Duration::from_secs(5));
    state.record_action_result(
        BinaryState::On,
        0,
        ActionOutcome::Failure {
            status: None,
            error: None,
        },
        now,
        Duration::from_secs(1),
        Duration::from_secs(5),
    );

    state.observe_sample(&sample(13.0), now.plus(Duration::from_millis(1)));
    assert_eq!(
        state.tick(
            now.plus(Duration::from_millis(1)),
            Duration::from_secs(1),
            Duration::from_secs(5)
        ),
        TickDecision::Idle
    );
    assert_eq!(state.pending_target_state, Some(BinaryState::On));
    assert_eq!(state.retry_attempt, 1);
    assert!(state.next_retry_at.is_some());
}

#[test]
fn sequence_advances_in_order_and_dwell_precedes_opposite_duration() {
    let now = START;
    let mut config = config(Duration::zero(), Duration::from_secs(5));
    config.on.url = None;
    config.on.hold_for = Duration::from_secs(10);
    config.on.actions = vec![
        request("http://127.0.0.1/soft-off"),
        ActionStepConfig::WaitForJson {
            url: "http://127.0.0.1/atx".to_string(),
            pointer: "/result/leds/power".to_string(),
            expected: "false".to_string(),
            poll_every: Duration::from_secs(2),
            timeout: Duration::from_secs(20),
            on_timeout: WaitTimeoutPolicy::Continue,
        },
        ActionStepConfig::Delay {
            duration: Duration::from_secs(1),
        },
        request("http://127.0.0.1/relay-off"),
    ];
    let mut state = runtime(config, now, 11.0);

    assert_eq!(
        state.tick(now, Duration::from_secs(1), Duration::from_secs(5)),
        attempt(BinaryState::On)
    );
    state.record_action_result(
        BinaryState::On,
        0,
        ActionOutcome::Success { status: 204 },
        now,
        Duration::from_secs(1),
        Duration::from_secs(5),
    );
    assert_eq!(state.action_step_index, 1);

    assert_eq!(
        state.tick(now, Duration::from_secs(1), Duration::from_secs(5)),
        TickDecision::Attempt {
            target: BinaryState::On,
            step_index: 1,
        }
    );
    state.record_action_result(
        BinaryState::On,
        1,
        ActionOutcome::Pending { status: 200 },
        now,
        Duration::from_secs(1),
        Duration::from_secs(5),
    );
    assert_eq!(
        state.tick(
            now.plus(Duration::from_secs(1)),
            Duration::from_secs(1),
            Duration::from_secs(5)
        ),
        TickDecision::Idle
    );
    assert_eq!(
        state.tick(
            now.plus(Duration::from_secs(2)),
            Duration::from_secs(1),
            Duration::from_secs(5)
        ),
        TickDecision::Attempt {
            target: BinaryState::On,
            step_index: 1,
        }
    );
    state.record_action_result(
        BinaryState::On,
        1,
        ActionOutcome::Success { status: 200 },
        now.plus(Duration::from_secs(2)),
        Duration::from_secs(1),
        Duration::from_secs(5),
    );
    assert_eq!(
        state.tick(
            now.plus(Duration::from_secs(2)),
            Duration::from_secs(1),
            Duration::from_secs(5)
        ),
        TickDecision::Idle
    );
    assert_eq!(
        state.tick(
            now.plus(Duration::from_secs(3)),
            Duration::from_secs(1),
            Duration::from_secs(5)
        ),
        TickDecision::Attempt {
            target: BinaryState::On,
            step_index: 3,
        }
    );
    state.record_action_result(
        BinaryState::On,
        3,
        ActionOutcome::Success { status: 204 },
        now.plus(Duration::from_secs(3)),
        Duration::from_secs(1),
        Duration::from_secs(5),
    );
    assert_eq!(state.applied_state, Some(BinaryState::On));

    state.observe_sample(&sample(13.0), now.plus(Duration::from_secs(4)));
    assert_eq!(
        state.tick(
            now.plus(Duration::from_secs(13)),
            Duration::from_secs(1),
            Duration::from_secs(5)
        ),
        TickDecision::Idle
    );
    assert_eq!(
        state.tick(
            now.plus(Duration::from_secs(18)),
            Duration::from_secs(1),
            Duration::from_secs(5)
        ),
        attempt(BinaryState::Off)
    );
}

#[test]
fn wait_timeout_continue_advances_to_next_step() {
    let now = START;
    let mut config = config(Duration::zero(), Duration::zero());
    config.on.url = None;
    config.on.actions = vec![
        ActionStepConfig::WaitForJson {
            url: "http://127.0.0.1/atx".to_string(),
            pointer: "/result/leds/power".to_string(),
            expected: "false".to_string(),
            poll_every: Duration::from_secs(1),
            timeout: Duration::from_secs(2),
            on_timeout: WaitTimeoutPolicy::Continue,
        },
        request("http://127.0.0.1/relay-off"),
    ];
    let mut state = runtime(config, now, 11.0);
    assert!(matches!(
        state.tick(now, Duration::from_secs(1), Duration::from_secs(5)),
        TickDecision::Attempt { step_index: 0, .. }
    ));
    assert_eq!(
        state.tick(
            now.plus(Duration::from_secs(2)),
            Duration::from_secs(1),
            Duration::from_secs(5)
        ),
        TickDecision::WaitTimedOut {
            target: BinaryState::On,
            step_index: 0,
        }
    );
    state.record_wait_timeout(
        BinaryState::On,
        0,
        now.plus(Duration::from_secs(2)),
        Duration::from_secs(1),
        Duration::from_secs(5),
    );
    assert_eq!(
        state.tick(
            now.plus(Duration::from_secs(2)),
            Duration::from_secs(1),
            Duration::from_secs(5)
        ),
        TickDecision::Attempt {
            target: BinaryState::On,
            step_index: 1
        }
    );
}

#[test]
fn wait_timeout_retry_polls_after_backoff_longer_than_timeout() {
    let now = START;
    let mut config = config(Duration::zero(), Duration::zero());
    config.on.url = None;
    config.on.actions = vec![ActionStepConfig::WaitForJson {
        url: "http://127.0.0.1/atx".to_string(),
        pointer: "/result/leds/power".to_string(),
        expected: "false".to_string(),
        poll_every: Duration::from_secs(1),
        timeout: Duration::from_secs(1),
        on_timeout: WaitTimeoutPolicy::Retry,
    }];
    let mut state = runtime(config, now, 11.0);
    assert!(matches!(
        state.tick(now, Duration::from_secs(5), Duration::from_secs(5)),
        TickDecision::Attempt { .. }
    ));
    assert!(matches!(
        state.tick(
            now.plus(Duration::from_secs(1)),
            Duration::from_secs(5),
            Duration::from_secs(5)
        ),
        TickDecision::WaitTimedOut { .. }
    ));
    state.record_wait_timeout(
        BinaryState::On,
        0,
        now.plus(Duration::from_secs(1)),
        Duration::from_secs(5),
        Duration::from_secs(5),
    );
    assert_eq!(
        state.tick(
            now.plus(Duration::from_secs(5)),
            Duration::from_secs(5),
            Duration::from_secs(5)
        ),
        TickDecision::Idle
    );
    assert!(matches!(
        state.tick(
            now.plus(Duration::from_secs(6)),
            Duration::from_secs(5),
            Duration::from_secs(5)
        ),
        TickDecision::Attempt { step_index: 0, .. }
    ));
}

#[test]
fn backoff_caps_at_retry_max() {
    assert_eq!(
        backoff(0, Duration::from_secs(1), Duration::from_secs(5)),
        Duration::from_secs(1)
    );
    assert_eq!(
        backoff(2, Duration::from_secs(1), Duration::from_secs(5)),
        Duration::from_secs(4)
    );
    assert_eq!(
        backoff(10, Duration::from_secs(1), Duration::from_secs(5)),
        Duration::from_secs(5)
    );
}

fn runtime(config: StateConfig, now: Instant, value: f32) -> RuntimeState {
    let mut state = RuntimeState::new(config, SERIAL);
    state.observe_sample(&sample(value), now);
    state
}

fn config(on_duration: Duration, off_duration: Duration) -> StateConfig {
    StateConfig {
        name: "relay".to_string(),
        serial: SERIAL.to_string(),
        field: MeasurementField::Voltage1Volts,
        default_state: BinaryState::Off,
        stale_after: Duration::from_secs(30),
        on: transition(ComparisonOp::Le, 12.0, on_duration, "http://127.0.0.1/on"),
        off: transition(ComparisonOp::Ge, 12.6, off_duration, "http://127.0.0.1/off"),
    }
}

fn transition(op: ComparisonOp, value: f64, duration: Duration, url: &str) -> TransitionConfig {
    TransitionConfig {
        op,
        value: double(value),
        duration,
        hold_for: Duration::zero(),
        url: Some(url.to_string()),
        actions: Vec::new(),
    }
}

fn request(url: &str) -> ActionStepConfig {
    ActionStepConfig::Request {
        method: None,
        url: url.to_string(),
    }
}

fn attempt(target: BinaryState) -> TickDecision {
    TickDecision::Attempt {
        target,
        step_index: 0,
    }
}

fn sample(voltage1_volts: f32) -> Sample {
    Sample {
        schema_version: 1,
        observed_at: UtcTime { secs: 1_782_000_000, nanos: 0 },
        serial: SERIAL,
        address_raw: 0,
        address_display: None,
        address_kind: None,
        name: None,
        model: None,
        firmware_version_bcd: 0,
        firmware_version: None,
        hardware_revision_bcd: 0,
        hardware_revision: None,
        device_time_raw: 0,
        flags_raw: 0,
        voltage1_volts: single(voltage1_volts),
        voltage2_volts: single(0.0),
        current_amps: single(0.0),
        power_watts: single(0.0),
        coulomb_meter_raw: single(0.0),
        power_meter_raw: single(0.0),
        temperature_celsius: single(0.0),
        temperature_is_external: false,
        power_status_code: 0,
        power_status: None,
        soc_raw: 0,
        soc_percent: None,
        runtime_raw: 0,
        runtime_minutes: None,
        rssi_dbm: 0,
    }
}

#[test]
fn backoff_doubles_from_the_initial_delay_without_limit_on_attempts() {
    assert_eq!(
        backoff(1, Duration::from_secs(1), Duration::from_secs(5)),
        Duration::from_secs(2)
    );
    assert_eq!(
        backoff(3, Duration::from_secs(1), Duration::from_secs(5)),
        Duration::from_secs(5)
    );
    assert_eq!(
        backoff(11, Duration::from_millis(1), Duration::from_secs(5)),
        Duration::from_millis(2048)
    );
    assert_eq!(
        backoff(u32::MAX, Duration::from_millis(1), Duration::from_secs(5)),
        Duration::from_secs(5)
    );
    assert_eq!(
        backoff(7, Duration::zero(), Duration::from_secs(5)),
        Duration::zero()
    );
    assert_eq!(
        backoff(0, Duration::from_secs(9), Duration::from_secs(5)),
        Duration::from_secs(5)
    );
}

#[test]
fn one_breaking_sample_between_ticks_resets_the_timer() {
    let now = START;
    let mut state = runtime(config(Duration::from_secs(5), Duration::zero()), now, 11.0);
    state.tick(now, Duration::from_secs(1), Duration::from_secs(5));
    assert_eq!(state.on_condition_started_at, Some(now));

    state.observe_sample(&sample(12.3), now.plus(Duration::from_millis(1500)));
    state.observe_sample(&sample(11.0), now.plus(Duration::from_millis(1600)));
    assert_eq!(state.on_condition_started_at, None);
    assert_eq!(
        state.tick(
            now.plus(Duration::from_secs(5)),
            Duration::from_secs(1),
            Duration::from_secs(5)
        ),
        TickDecision::Idle
    );
    assert_eq!(
        state.tick(
            now.plus(Duration::from_secs(10)),
            Duration::from_secs(1),
            Duration::from_secs(5)
        ),
        attempt(BinaryState::On)
    );
}

#[test]
fn stale_input_clears_the_desired_state() {
    let now = START;
    let mut state = runtime(config(Duration::zero(), Duration::zero()), now, 11.0);
    state.desired_state = Some(BinaryState::Off);
    state.applied_state = Some(BinaryState::Off);
    assert_eq!(
        state.tick(
            now.plus(Duration::from_secs(31)),
            Duration::from_secs(1),
            Duration::from_secs(5)
        ),
        TickDecision::Idle
    );
    assert_eq!(state.desired_state, None);
    assert_eq!(state.applied_state, Some(BinaryState::Off));
}

#[test]
fn input_is_fresh_at_the_very_age_limit() {
    let now = START;
    let mut state = runtime(config(Duration::zero(), Duration::zero()), now, 11.0);
    assert_eq!(
        state.tick(
            now.plus(Duration::from_secs(30)),
            Duration::from_secs(1),
            Duration::from_secs(5)
        ),
        attempt(BinaryState::On)
    );
    assert!(!state.stale);
}

#[test]
fn ambiguous_conditions_change_nothing() {
    let now = START;
    let mut both = config(Duration::zero(), Duration::zero());
    both.off = transition(
        ComparisonOp::Ge,
        10.0,
        Duration::zero(),
        "http://127.0.0.1/off",
    );
    let mut state = runtime(both, now, 11.0);
    assert_eq!(
        state.tick(now, Duration::from_secs(1), Duration::from_secs(5)),
        TickDecision::Idle
    );
    assert!(state.ambiguous);
    assert_eq!(state.desired_state, None);
    assert_eq!(state.pending_target_state, None);
}

#[test]
fn success_resets_backoff_and_failure_counts() {
    let now = START;
    let mut state = runtime(config(Duration::zero(), Duration::zero()), now, 11.0);
    state.tick(now, Duration::from_secs(1), Duration::from_secs(5));
    for expected in [1, 2, 4, 5, 5] {
        state.record_action_result(
            BinaryState::On,
            0,
            ActionOutcome::Failure {
                status: None,
                error: None,
            },
            now,
            Duration::from_secs(1),
            Duration::from_secs(5),
        );
        assert_eq!(
            state.next_retry_at,
            Some(now.plus(Duration::from_secs(expected)))
        );
    }
    assert_eq!(state.retry_attempt, 5);
    state.record_action_result(
        BinaryState::On,
        0,
        ActionOutcome::Success { status: 200 },
        now,
        Duration::from_secs(1),
        Duration::from_secs(5),
    );
    assert_eq!(state.retry_attempt, 0);
    assert_eq!(state.next_retry_at, None);
    assert_eq!(state.applied_state, Some(BinaryState::On));
}

#[test]
fn reports_on_other_steps_are_ignored() {
    let now = START;
    let mut state = runtime(config(Duration::zero(), Duration::zero()), now, 11.0);
    state.tick(now, Duration::from_secs(1), Duration::from_secs(5));
    for (target, step_index) in [(BinaryState::Off, 0), (BinaryState::On, 1)] {
        state.record_action_result(
            target,
            step_index,
            ActionOutcome::Success { status: 204 },
            now,
            Duration::from_secs(1),
            Duration::from_secs(5),
        );
        state.record_wait_timeout(
            target,
            step_index,
            now,
            Duration::from_secs(1),
            Duration::from_secs(5),
        );
        assert!(!state.wait_timed_out(target, step_index, now));
    }
    assert_eq!(state.applied_state, None);
    assert_eq!(state.pending_target_state, Some(BinaryState::On));
    assert_eq!(state.last_http_status, None);
}

#[test]
fn failed_poll_waits_for_the_poll_interval_without_backoff() {
    let now = START;
    let mut waiting = config(Duration::zero(), Duration::zero());
    waiting.on.url = None;
    waiting.on.actions = vec![ActionStepConfig::WaitForJson {
        url: "http://127.0.0.1/atx".to_string(),
        pointer: "/result/leds/power".to_string(),
        expected: "false".to_string(),
        poll_every: Duration::from_secs(3),
        timeout: Duration::from_secs(20),
        on_timeout: WaitTimeoutPolicy::Retry,
    }];
    let mut state = runtime(waiting, now, 11.0);
    state.tick(now, Duration::from_secs(1), Duration::from_secs(5));
    state.record_action_result(
        BinaryState::On,
        0,
        ActionOutcome::Failure {
            status: Some(502),
            error: None,
        },
        now,
        Duration::from_secs(1),
        Duration::from_secs(5),
    );
    assert_eq!(state.next_retry_at, Some(now.plus(Duration::from_secs(3))));
    assert_eq!(state.retry_attempt, 0);
    assert!(!state.wait_timed_out(BinaryState::On, 0, now.plus(Duration::from_secs(19))));
    assert!(state.wait_timed_out(BinaryState::On, 0, now.plus(Duration::from_secs(20))));
}

#[test]
fn elapsed_delays_complete_a_sequence_within_one_tick() {
    let now = START;
    let mut delayed = config(Duration::zero(), Duration::zero());
    delayed.on.url = None;
    delayed.on.hold_for = Duration::from_secs(4);
    delayed.on.actions = vec![
        ActionStepConfig::Delay {
            duration: Duration::zero(),
        },
        ActionStepConfig::Delay {
            duration: Duration::from_secs(2),
        },
    ];
    let mut state = runtime(delayed, now, 11.0);
    assert_eq!(
        state.tick(now, Duration::from_secs(1), Duration::from_secs(5)),
        TickDecision::Idle
    );
    assert_eq!(state.action_step_index, 1);
    let later = now.plus(Duration::from_secs(2));
    assert_eq!(
        state.tick(later, Duration::from_secs(1), Duration::from_secs(5)),
        TickDecision::Idle
    );
    assert_eq!(state.applied_state, Some(BinaryState::On));
    assert_eq!(state.hold_until, Some(later.plus(Duration::from_secs(4))));
    assert_eq!(state.action_step_index, 0);
}

#[test]
fn default_state_is_not_used_once_a_state_was_applied() {
    let now = START;
    let mut state = runtime(config(Duration::zero(), Duration::zero()), now, 12.3);
    state.applied_state = Some(BinaryState::On);
    assert_eq!(
        state.tick(now, Duration::from_secs(1), Duration::from_secs(5)),
        TickDecision::Idle
    );
    assert_eq!(state.desired_state, None);
}

#[test]
fn what_is_not_a_number_matches_neither_threshold() {
    let now = START;
    let mut state = runtime(config(Duration::zero(), Duration::zero()), now, f32::NAN);
    assert_eq!(
        state.tick(now, Duration::from_secs(1), Duration::from_secs(5)),
        attempt(BinaryState::Off)
    );
    assert_eq!(state.on_condition_started_at, None);
    assert_eq!(state.off_condition_started_at, None);
}

#[test]
fn pending_target_is_never_the_applied_state() {
    let mut state = RuntimeState::new(config(Duration::zero(), Duration::zero()), SERIAL);
    let mut applied = 0;
    for second in 0..40u64 {
        let now = START.plus(Duration::from_secs(second));
        let volts = if second % 8 < 4 { 11.0 } else { 13.0 };
        state.observe_sample(&sample(volts), now);
        let decision = state.tick(now, Duration::from_secs(1), Duration::from_secs(5));
        if state.pending_target_state.is_some() {
            assert_ne!(state.pending_target_state, state.applied_state);
            assert!(state.step_started_at.is_some());
        }
        if let TickDecision::Attempt { target, step_index } = decision {
            let outcome = if second % 3 == 0 {
                ActionOutcome::Failure {
                    status: None,
                    error: None,
                }
            } else {
                applied += 1;
                ActionOutcome::Success { status: 200 }
            };
            state.record_action_result(
                target,
                step_index,
                outcome,
                now,
                Duration::from_secs(1),
                Duration::from_secs(5),
            );
        }
    }
    assert!(applied >= 2);
}
