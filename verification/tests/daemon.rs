use wattdog::calendar::{date_of, UtcTime};
use wattdog::cli::{default_config_path, Cli};
use wattdog::clock::{Duration, Instant};
use wattdog::config::{
    BinaryState, ComparisonOp, Config, DataConfig, HttpConfig, HttpMethod, MeasurementField,
    MetricsConfig, RollPeriod, StateConfig, TransitionConfig,
};
use wattdog::float::{Double, Single};
use wattdog::metrics::Metrics;
use wattdog::processor::{observe, writer_enqueue_attempted, SampleProcessor, StatusReport};
use wattdog::sample::{c_char_array_to_string, trimmed_text, Sample, TwAdvertisement};
use wattdog::scanner::{
    ble_start_attempted, error_or_unknown, last_error, sample_enqueue_attempted, scanner_stopped,
    scanner_unavailable,
};
use wattdog::state::engine::StateEngine;

const NOW: Instant = Instant {
    nanos: 5_000_000_000,
};

fn single(value: f32) -> Single {
    Single {
        bits: value.to_bits(),
    }
}

fn buffer(text: &str, len: usize) -> Vec<u8> {
    let mut bytes = text.as_bytes().to_vec();
    bytes.resize(len, 0);
    bytes
}

fn advertisement() -> TwAdvertisement {
    TwAdvertisement {
        serial: 42,
        address_raw: 0xAABB,
        address_display: buffer("AA:BB", 32),
        name: buffer("  shed \t", 16),
        model: buffer("", 16),
        firmware_version_bcd: 0x0120,
        hardware_revision_bcd: 0x34,
        device_time_raw: 11,
        flags_raw: 12,
        voltage1_volts: single(13.2),
        voltage2_volts: single(12.1),
        current_amps: single(-1.5),
        power_watts: single(19.8),
        coulomb_meter_raw: single(1.0),
        power_meter_raw: single(2.0),
        temperature_celsius: single(25.0),
        temperature_is_external: true,
        power_status_code: 3,
        power_status_display: buffer("On", 2),
        soc_raw: 101,
        runtime_raw: 0xFFF0,
        rssi_dbm: -60,
    }
}

fn observed() -> UtcTime {
    UtcTime {
        secs: 1_782_000_000,
        nanos: 123_456_789,
    }
}

fn engine() -> StateEngine {
    let transition = |op, value: f64| TransitionConfig {
        op,
        value: Double {
            bits: value.to_bits(),
        },
        duration: Duration::zero(),
        hold_for: Duration::zero(),
        url: Some("http://127.0.0.1/x".to_string()),
        actions: Vec::new(),
    };
    StateEngine::new(&Config {
        data: DataConfig {
            dir: String::new(),
            roll: RollPeriod::Hourly,
        },
        metrics: MetricsConfig::default(),
        http: HttpConfig {
            method: HttpMethod::Post,
            timeout: Duration::from_secs(1),
            retry_initial: Duration::from_millis(1),
            retry_max: Duration::from_millis(1),
            require_https: false,
            allow_invalid_certs: false,
        },
        states: vec![StateConfig {
            name: "relay".to_string(),
            serial: "42".to_string(),
            field: MeasurementField::PowerWatts,
            default_state: BinaryState::Off,
            stale_after: Duration::from_secs(30),
            on: transition(ComparisonOp::Lt, 1.0),
            off: transition(ComparisonOp::Gt, 2.0),
        }],
    })
    .expect("engine")
}

#[test]
fn advertisement_becomes_a_sample() {
    let sample = Sample::from_tw_advertisement(&advertisement(), observed());
    assert_eq!(sample.schema_version, 1);
    assert_eq!(sample.observed_at_unix_ms(), 1_782_000_000_123);
    assert_eq!(sample.serial, 42);
    assert_eq!(sample.address_raw, 0xAABB);
    assert_eq!(sample.address_display.as_deref(), Some("AA:BB"));
    assert_eq!(sample.address_kind.as_deref(), Some("ble_mac"));
    assert_eq!(sample.name.as_deref(), Some("shed"));
    assert_eq!(sample.model, None);
    assert_eq!(sample.firmware_version.as_deref(), Some("01.20"));
    assert_eq!(sample.hardware_revision.as_deref(), Some("3.4"));
    assert_eq!(sample.device_time_raw, 11);
    assert_eq!(sample.flags_raw, 12);
    assert_eq!(sample.voltage1_volts, single(13.2));
    assert_eq!(sample.power_meter_raw, single(2.0));
    assert!(sample.temperature_is_external);
    assert_eq!(sample.power_status.as_deref(), Some("On"));
    assert_eq!(sample.soc_raw, 101);
    assert_eq!(sample.soc_percent, None);
    assert_eq!(sample.runtime_minutes, Some(0xFFF0));
    assert_eq!(sample.rssi_dbm, -60);
}

#[test]
fn address_kind_follows_the_hardware_family() {
    for (revision, kind) in [
        (0x10, "ipv4"),
        (0x4F, "ipv4"),
        (0x20, "ble_mac"),
        (0x39, "ble_mac"),
        (0x00, "unknown"),
        (0x50, "unknown"),
    ] {
        let mut advertisement = advertisement();
        advertisement.hardware_revision_bcd = revision;
        let sample = Sample::from_tw_advertisement(&advertisement, observed());
        assert_eq!(sample.address_kind.as_deref(), Some(kind));
    }
}

#[test]
fn buffers_are_decoded_up_to_the_first_zero() {
    assert_eq!(c_char_array_to_string(b""), None);
    assert_eq!(c_char_array_to_string(b"\0abc"), None);
    assert_eq!(c_char_array_to_string(b" \t\n\0abc"), None);
    assert_eq!(c_char_array_to_string(b"ab\0cd").as_deref(), Some("ab"));
    assert_eq!(
        c_char_array_to_string(b"a\xFFb").as_deref(),
        Some("a\u{FFFD}b")
    );
    assert_eq!(
        c_char_array_to_string("caf\u{e9}\u{a0}".as_bytes()).as_deref(),
        Some("caf\u{e9}")
    );
    assert_eq!(trimmed_text("  "), None);
    assert_eq!(trimmed_text(" a b ").as_deref(), Some("a b"));
}

#[test]
fn white_space_is_cut_off_and_nothing_else() {
    let spaces: Vec<char> = ('\u{0}'..='\u{10FFFF}')
        .filter(|c| trimmed_text(&c.to_string()).is_none())
        .collect();
    let expected: Vec<char> = ('\u{9}'..='\u{d}')
        .chain(['\u{20}', '\u{85}', '\u{a0}', '\u{1680}'])
        .chain('\u{2000}'..='\u{200a}')
        .chain(['\u{2028}', '\u{2029}', '\u{202f}', '\u{205f}', '\u{3000}'])
        .collect();
    assert_eq!(spaces, expected);
}

#[test]
fn sdk_errors_have_a_text() {
    assert_eq!(last_error(None), "unknown Thornwave SDK error");
    assert_eq!(last_error(Some(b"")), "unknown Thornwave SDK error");
    assert_eq!(last_error(Some(b"no\xFFdbus")), "no\u{FFFD}dbus");
    assert_eq!(error_or_unknown(String::new()), "unknown Thornwave SDK error");
    assert_eq!(error_or_unknown("busy".to_string()), "busy");
}

#[test]
fn scanner_life_is_shown() {
    let mut metrics = Metrics::new("test");
    let shown = |metrics: &Metrics, up: u8| {
        let text = metrics.encode().expect("metrics");
        text.contains(&format!("wattdog_up {up}\n"))
            && text.contains(&format!("wattdog_ble_scanner_running {up}\n"))
    };
    assert!(ble_start_attempted(&mut metrics, true));
    assert!(shown(&metrics, 1));
    scanner_stopped(&mut metrics);
    assert!(shown(&metrics, 0));
    assert!(ble_start_attempted(&mut metrics, true));
    assert!(!ble_start_attempted(&mut metrics, false));
    assert!(shown(&metrics, 0));
    ble_start_attempted(&mut metrics, true);
    scanner_unavailable(&mut metrics);
    assert!(shown(&metrics, 0));
}

#[test]
fn processed_observations_are_counted_and_reported() {
    let mut metrics = Metrics::new("test");
    let mut engine = engine();
    let mut processor = SampleProcessor::new();
    let sample = Sample::from_tw_advertisement(&advertisement(), observed());
    assert_eq!(processor.report(), StatusReport::NothingYet);
    assert!(processor.process(&sample, &mut engine, &mut metrics, NOW));
    assert!(!processor.process(&sample, &mut engine, &mut metrics, NOW));
    assert_eq!(processor.report(), StatusReport::Processed(2));
    assert_eq!(processor.report(), StatusReport::NothingNew(2));
    observe(&sample, &mut engine, &mut metrics, NOW);
    assert_eq!(processor.report(), StatusReport::NothingNew(2));
    assert_eq!(
        engine.states[0].latest_value,
        Some(Double {
            bits: f64::from(19.8f32).to_bits()
        })
    );
    assert!(metrics
        .encode()
        .expect("metrics")
        .contains("wattdog_observations_received_total 3\n"));
}

#[test]
fn observations_that_do_not_fit_a_queue_are_counted() {
    let mut metrics = Metrics::new("test");
    sample_enqueue_attempted(&mut metrics, true);
    sample_enqueue_attempted(&mut metrics, false);
    writer_enqueue_attempted(&mut metrics, true);
    writer_enqueue_attempted(&mut metrics, false);
    writer_enqueue_attempted(&mut metrics, false);
    let text = metrics.encode().expect("metrics");
    assert!(text.contains("wattdog_observations_dropped_total 1\n"));
    assert!(text.contains("wattdog_writer_dropped_observations_total 2\n"));
}

#[test]
fn observations_are_handed_on_or_dropped() {
    let mut metrics = Metrics::new("test");
    let mut engine = engine();
    let mut queue: Vec<u64> = Vec::new();
    for serial in 1..=5 {
        let mut sample = Sample::from_tw_advertisement(&advertisement(), observed());
        sample.serial = serial;
        observe(&sample, &mut engine, &mut metrics, NOW);
        let accepted = queue.len() < 3;
        if accepted {
            queue.push(sample.serial);
        }
        writer_enqueue_attempted(&mut metrics, accepted);
    }
    assert_eq!(queue, vec![1, 2, 3]);
    let text = metrics.encode().expect("metrics");
    assert!(text.contains("wattdog_writer_dropped_observations_total 2\n"));
    assert!(text.contains("wattdog_observations_received_total 5\n"));
    assert!(text.contains("wattdog_devices_seen 5\n"));
}

#[test]
fn command_line_has_defaults() {
    let cli = Cli::default();
    assert_eq!(cli.config, default_config_path());
    assert_eq!(cli.config, "/etc/wattdog/config.toml");
    assert!(!cli.check_config);
    assert!(!cli.dry_run);
}

#[test]
fn dates_follow_the_calendar() {
    for (year, month, day) in [
        (-262_143, 1, 1),
        (-1, 12, 31),
        (0, 2, 29),
        (1900, 3, 1),
        (1969, 12, 31),
        (1970, 1, 1),
        (2000, 2, 29),
        (2026, 6, 21),
        (2100, 2, 28),
        (262_142, 12, 31),
    ] {
        let secs = chrono::NaiveDate::from_ymd_opt(year, month, day)
            .and_then(|date| date.and_hms_opt(23, 59, 59))
            .expect("time")
            .and_utc()
            .timestamp();
        let date = date_of(UtcTime { secs, nanos: 0 });
        assert_eq!((date.year, date.month, date.day), (year, month, day));
        assert_eq!(UtcTime { secs, nanos: 0 }.hour(), 23);
    }
}
