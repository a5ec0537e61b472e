use wattdog::calendar::UtcTime;
use wattdog::clock::Duration;
use wattdog::config::BinaryState;
use wattdog::float::{Double, Single};
use wattdog::http_server::{healthz, metrics_reply};
use wattdog::metrics::{EncodeError, Metrics, ReadingValue, Series};
use wattdog::sample::Sample;

fn single(value: f32) -> Single {
    Single {
        bits: value.to_bits(),
    }
}

fn sample(serial: u64) -> Sample {
    Sample {
        schema_version: 1,
        observed_at: UtcTime {
            secs: 1_782_000_000,
            nanos: 900_000_000,
        },
        serial,
        address_raw: 0,
        address_display: Some("AA:BB".to_string()),
        address_kind: None,
        name: Some("shed".to_string()),
        model: None,
        firmware_version_bcd: 0,
        firmware_version: None,
        hardware_revision_bcd: 0,
        hardware_revision: None,
        device_time_raw: 0,
        flags_raw: 0,
        voltage1_volts: single(13.2),
        voltage2_volts: single(12.1),
        current_amps: single(-1.5),
        power_watts: single(19.8),
        coulomb_meter_raw: single(0.0),
        power_meter_raw: single(0.0),
        temperature_celsius: single(25.0),
        temperature_is_external: false,
        power_status_code: 3,
        power_status: None,
        soc_raw: 0xFF,
        soc_percent: None,
        runtime_raw: 120,
        runtime_minutes: Some(120),
        rssi_dbm: -60,
    }
}

fn text(metrics: &Metrics) -> String {
    metrics.encode().expect("metrics")
}

#[test]
fn new_metrics_show_build_and_zeros() {
    let metrics = Metrics::new("0.1.0");
    let text = text(&metrics);
    for line in [
        "# HELP wattdog_build_info Daemon build information.\n",
        "# TYPE wattdog_build_info gauge\n",
        "wattdog_build_info{version=\"0.1.0\"} 1\n",
        "# HELP wattdog_up Whether any scanner transport is running.\n",
        "wattdog_up 0\n",
        "wattdog_ble_scanner_running 0\n",
        "wattdog_observations_received_total 0\n",
        "wattdog_observations_dropped_total 0\n",
        "wattdog_writer_dropped_observations_total 0\n",
        "wattdog_devices_seen 0\n",
        "wattdog_parquet_rows_written_total 0\n",
        "wattdog_parquet_batches_written_total 0\n",
        "wattdog_parquet_write_errors_total 0\n",
        "wattdog_parquet_active_file_open 0\n",
        "wattdog_parquet_active_file_rows 0\n",
        "wattdog_parquet_rolls_total 0\n",
    ] {
        assert!(text.contains(line), "{line} in {text}");
    }
    assert!(text.ends_with("# EOF\n"));
    assert!(!text.contains("wattdog_device_info"));
}

#[test]
fn scanner_gauges_are_set_and_read() {
    let mut metrics = Metrics::new("test");
    assert!(!metrics.any_scanner_transport_running());
    metrics.set_ble_running(true);
    assert!(metrics.any_scanner_transport_running());
    assert!(text(&metrics).contains("wattdog_ble_scanner_running 1\n"));
    assert!(text(&metrics).contains("wattdog_up 0\n"));
    metrics.set_scanner_running(true);
    assert!(text(&metrics).contains("wattdog_up 1\n"));
    metrics.set_ble_running(false);
    assert!(!metrics.any_scanner_transport_running());
}

#[test]
fn drops_are_counted_apart() {
    let mut metrics = Metrics::new("test");
    metrics.observe_scanner_dropped();
    metrics.observe_writer_dropped();
    metrics.observe_writer_dropped();
    assert!(text(&metrics).contains("wattdog_observations_dropped_total 1\n"));
    assert!(text(&metrics).contains("wattdog_writer_dropped_observations_total 2\n"));
}

#[test]
fn samples_update_counters_identity_and_readings() {
    let mut metrics = Metrics::new("test");
    metrics.observe_sample(&sample(7));
    let readings = metrics.take_readings();
    let shown: Vec<(Series, ReadingValue)> = readings
        .iter()
        .map(|reading| (reading.series, reading.value))
        .collect();
    assert_eq!(
        shown,
        vec![
            (
                Series::LastObservationTime,
                ReadingValue::Integer(1_782_000_000)
            ),
            (Series::Voltage1, ReadingValue::Single(single(13.2))),
            (Series::Voltage2, ReadingValue::Single(single(12.1))),
            (Series::Current, ReadingValue::Single(single(-1.5))),
            (Series::Power, ReadingValue::Single(single(19.8))),
            (Series::Temperature, ReadingValue::Single(single(25.0))),
            (Series::Soc, ReadingValue::Missing),
            (Series::Runtime, ReadingValue::Integer(120)),
            (Series::Rssi, ReadingValue::Integer(-60)),
            (Series::PowerStatusCode, ReadingValue::Integer(3)),
        ]
    );
    for reading in &readings {
        assert_eq!(
            reading.labels,
            vec![("serial".to_string(), "7".to_string())]
        );
    }
    assert!(metrics.take_readings().is_empty());
    metrics.observe_sample(&sample(7));
    metrics.observe_sample(&sample(8));
    let text = text(&metrics);
    assert!(text.contains("wattdog_observations_received_total 3\n"));
    assert!(text.contains("wattdog_devices_seen 2\n"));
    assert!(text.contains("wattdog_device_observations_received_total{serial=\"7\"} 2\n"));
    assert!(text.contains("wattdog_device_observations_received_total{serial=\"8\"} 1\n"));
    assert!(text.contains(
        "wattdog_device_info{serial=\"7\",name=\"shed\",model=\"\",address=\"AA:BB\",\
         firmware_version=\"\",rssi_dbm=\"-60\"} 1\n"
    ));
}

#[test]
fn writer_metrics_follow_the_file() {
    let mut metrics = Metrics::new("test");
    let now = UtcTime { secs: 9, nanos: 0 };
    metrics.set_parquet_active_file_open(true);
    metrics.parquet_rows_written(3, 3, now);
    metrics.parquet_rows_written(4, u64::MAX, now);
    metrics.parquet_write_error();
    metrics.parquet_roll();
    let shown = text(&metrics);
    assert!(shown.contains("wattdog_parquet_rows_written_total 7\n"));
    assert!(shown.contains("wattdog_parquet_batches_written_total 2\n"));
    assert!(shown.contains("wattdog_parquet_active_file_rows 9223372036854775807\n"));
    assert!(shown.contains("wattdog_parquet_active_file_open 1\n"));
    assert!(shown.contains("wattdog_parquet_write_errors_total 1\n"));
    assert!(shown.contains("wattdog_parquet_rolls_total 1\n"));
    metrics.set_parquet_active_file_rows(5);
    assert!(text(&metrics).contains("wattdog_parquet_active_file_rows 5\n"));
}

#[test]
fn counters_start_again_at_zero_when_they_overflow() {
    let mut metrics = Metrics::new("test");
    let now = UtcTime { secs: 9, nanos: 0 };
    metrics.parquet_rows_written(u64::MAX, 0, now);
    metrics.parquet_rows_written(3, 0, now);
    assert!(text(&metrics).contains("wattdog_parquet_rows_written_total 2\n"));
}

#[test]
fn state_metrics_are_labelled_by_name() {
    let mut metrics = Metrics::new("test");
    let value = Double {
        bits: 11.5f64.to_bits(),
    };
    metrics.observe_state_input("relay", "voltage1_volts", value, Duration::from_secs(1));
    metrics.state_transition("relay", BinaryState::Off);
    metrics.http_attempt("relay", BinaryState::On, true, Some(204));
    metrics.http_attempt("relay", BinaryState::On, false, None);
    metrics.action_wait_timeout("relay", BinaryState::Off);
    metrics.set_action_sequence_step("relay", Some(2));
    metrics.set_action_sequence_step("other", None);
    metrics.set_state_status(
        "relay",
        true,
        false,
        Some(BinaryState::Off),
        None,
        None,
        BinaryState::On,
    );
    let text = text(&metrics);
    for line in [
        "wattdog_state_transitions_total{name=\"relay\",target=\"off\"} 1\n",
        "wattdog_http_attempts_total{name=\"relay\",target=\"on\",result=\"success\"} 1\n",
        "wattdog_http_attempts_total{name=\"relay\",target=\"on\",result=\"failure\"} 1\n",
        "wattdog_action_wait_timeouts_total{name=\"relay\",target=\"off\"} 1\n",
        "wattdog_action_sequence_step{name=\"relay\"} 2\n",
        "wattdog_action_sequence_step{name=\"other\"} -1\n",
        "wattdog_state_stale{name=\"relay\"} 1\n",
        "wattdog_state_ambiguous{name=\"relay\"} 0\n",
        "wattdog_state_desired{name=\"relay\"} 0\n",
        "wattdog_state_applied{name=\"relay\"} -1\n",
        "wattdog_state_pending{name=\"relay\"} 0\n",
        "wattdog_state_default{name=\"relay\"} 1\n",
    ] {
        assert!(text.contains(line), "{line} in {text}");
    }
    let readings = metrics.take_readings();
    assert_eq!(readings[0].series, Series::StateInputValue);
    assert_eq!(
        readings[0].labels,
        vec![
            ("name".to_string(), "relay".to_string()),
            ("field".to_string(), "voltage1_volts".to_string())
        ]
    );
    assert_eq!(readings[0].value, ReadingValue::Double(value));
    assert_eq!(readings[1].series, Series::StateInputAge);
    assert_eq!(readings[2].series, Series::HttpLastStatusCode);
    assert_eq!(readings[2].value, ReadingValue::Integer(204));
    assert_eq!(readings.len(), 3);
}

#[test]
fn further_metrics_stand_before_the_end() {
    let metrics = Metrics::new("test");
    let own = text(&metrics);
    let all = metrics
        .encode_with("# TYPE extra gauge\nextra 4\n")
        .expect("metrics");
    assert_eq!(
        all,
        own.replace("# EOF\n", "# TYPE extra gauge\nextra 4\n# EOF\n")
    );
    assert_eq!(metrics.encode_with("").expect("metrics"), own);
}

#[test]
fn exposition_begins_as_written_here() {
    let text = text(&Metrics::new("test"));
    assert!(text.starts_with(
        "# HELP wattdog_build_info Daemon build information.\n\
         # TYPE wattdog_build_info gauge\n\
         wattdog_build_info{version=\"test\"} 1\n\
         # HELP wattdog_up Whether any scanner transport is running.\n\
         # TYPE wattdog_up gauge\n\
         wattdog_up 0\n"
    ));
    assert!(text.contains(
        "# HELP wattdog_observations_received Observed Thornwave advertisements.\n\
         # TYPE wattdog_observations_received counter\n\
         wattdog_observations_received_total 0\n"
    ));
    assert!(!text.contains("_total_total"));
}

#[test]
fn device_information_is_replaced_by_the_latest() {
    let mut metrics = Metrics::new("test");
    let mut latest = sample(12345);
    latest.model = Some("PowerMon".to_string());
    latest.firmware_version = Some("01.20".to_string());
    metrics.observe_sample(&latest);
    let line = "wattdog_device_info{serial=\"12345\",name=\"shed\",model=\"PowerMon\",\
                address=\"AA:BB\",firmware_version=\"01.20\",rssi_dbm=\"-60\"} 1\n";
    assert!(text(&metrics).contains(line));
    latest.rssi_dbm = 4;
    metrics.observe_sample(&latest);
    metrics.observe_sample(&sample(7));
    let shown = text(&metrics);
    assert!(!shown.contains(line));
    assert!(shown.contains("firmware_version=\"01.20\",rssi_dbm=\"4\"} 1\n"));
    assert_eq!(shown.matches("\nwattdog_device_info{").count(), 2);
    assert!(shown.contains("wattdog_devices_seen 2\n"));
}

#[test]
fn real_valued_series_have_names_and_help() {
    let all = Series::all();
    assert_eq!(all.len(), 15);
    assert_eq!(all[0].name(), "wattdog_last_observation_time_seconds");
    assert_eq!(all[0].help(), "Last observation timestamp by device");
    assert_eq!(Series::Current.name(), "wattdog_current_amperes");
    assert_eq!(
        Series::ParquetLastWrite.name(),
        "wattdog_parquet_last_successful_write_timestamp_seconds"
    );
    assert_eq!(
        Series::HttpRetryDelay.help(),
        "Current HTTP action retry delay"
    );
}

#[test]
fn health_and_scrape_replies() {
    assert_eq!(healthz(), "ok\n");
    let reply = metrics_reply(Ok("# EOF\n".to_string()));
    assert_eq!(reply.status, 200);
    assert_eq!(
        reply.content_type,
        "application/openmetrics-text; version=1.0.0; charset=utf-8"
    );
    assert_eq!(reply.body, "# EOF\n");
    let reply = metrics_reply(Err(EncodeError));
    assert_eq!(reply.status, 500);
    assert_eq!(reply.content_type, "text/plain; charset=utf-8");
    assert_eq!(
        reply.body,
        format!("failed to encode metrics: {}\n", std::fmt::Error)
    );
}
