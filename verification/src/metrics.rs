//! Prometheus/OpenMetrics state for daemon health and latest values.
//!
//! Metrics are the live operational view of the daemon. They are intentionally
//! separate from the durable Parquet log and hold only latest per-device values,
//! process health, scanner counters, and writer counters.
//!
//! Counters and whole-number gauges are kept here. What a gauge shows as a real number is
//! put in a queue of readings, for the holder of these gauges to take.

use std::collections::HashMap;
use vstd::prelude::*;

use crate::calendar::UtcTime;
use crate::clock::Duration;
use crate::config::BinaryState;
use crate::exposition::{
    counted, encode_end, exposes, increased, metric, no_counts, no_values, Labels,
    MetricEntry, MetricValue,
};
use crate::float::{Double, Single};
use crate::metrics::board::{
    Board, complete, ACTION_SEQUENCE_STEP, ACTION_WAIT_TIMEOUTS,
    BUILD_INFO, DEVICES_SEEN, DEVICE_INFO, DEVICE_OBSERVATIONS_RECEIVED, HTTP_ATTEMPTS,
    HTTP_PENDING, OBSERVATIONS_DROPPED, OBSERVATIONS_RECEIVED, PARQUET_ACTIVE_FILE_OPEN,
    PARQUET_ACTIVE_FILE_ROWS, PARQUET_BATCHES_WRITTEN, PARQUET_ROLLS, PARQUET_ROWS_WRITTEN,
    PARQUET_WRITE_ERRORS, SCANNER_BLE_RUNNING, SCANNER_RUNNING, STATE_AMBIGUOUS, STATE_APPLIED,
    STATE_DEFAULT, STATE_DESIRED, STATE_PENDING, STATE_STALE, STATE_TRANSITIONS,
    WRITER_DROPPED_OBSERVATIONS,
};
use crate::sample::Sample;
use crate::text::{decimal, decimal_text, signed_decimal, signed_text};

pub mod board;
pub mod lines;
pub mod samples;
pub mod status;
pub mod suffix;

verus! {

/// A metric whose values are real numbers.
#[derive(Clone, Copy, Debug, PartialEq, Eq, Structural)]
pub enum Series {
    /// Time of the latest observation of a device.
    LastObservationTime,
    /// Primary voltage of a device.
    Voltage1,
    /// Secondary voltage of a device.
    Voltage2,
    /// Current of a device.
    Current,
    /// Power of a device.
    Power,
    /// Temperature of a device.
    Temperature,
    /// State of charge of a device.
    Soc,
    /// Remaining runtime of a device.
    Runtime,
    /// Signal strength of a device.
    Rssi,
    /// Power status code of a device.
    PowerStatusCode,
    /// Time of the latest written batch. This one has no labels.
    ParquetLastWrite,
    /// Input of a state.
    StateInputValue,
    /// Age of the input of a state.
    StateInputAge,
    /// Status of the latest response to an action of a state.
    HttpLastStatusCode,
    /// Time until the next attempt of a state.
    HttpRetryDelay,
}

impl Series {
    /// The name of the metric.
    pub open spec fn metric_name(self) -> Seq<char> {
        match self {
            Series::LastObservationTime => "wattdog_last_observation_time_seconds"@,
            Series::Voltage1 => "wattdog_voltage1_volts"@,
            Series::Voltage2 => "wattdog_voltage2_volts"@,
            Series::Current => "wattdog_current_amperes"@,
            Series::Power => "wattdog_power_watts"@,
            Series::Temperature => "wattdog_temperature_celsius"@,
            Series::Soc => "wattdog_soc_percent"@,
            Series::Runtime => "wattdog_runtime_minutes"@,
            Series::Rssi => "wattdog_rssi_dbm"@,
            Series::PowerStatusCode => "wattdog_power_status_code"@,
            Series::ParquetLastWrite => "wattdog_parquet_last_successful_write_timestamp_seconds"@,
            Series::StateInputValue => "wattdog_state_input_value"@,
            Series::StateInputAge => "wattdog_state_input_age_seconds"@,
            Series::HttpLastStatusCode => "wattdog_http_last_status_code"@,
            Series::HttpRetryDelay => "wattdog_http_retry_delay_seconds"@,
        }
    }

    /// The help text of the metric.
    pub open spec fn help_text(self) -> Seq<char> {
        match self {
            Series::LastObservationTime => "Last observation timestamp by device"@,
            Series::Voltage1 => "Latest advertised voltage 1"@,
            Series::Voltage2 => "Latest advertised voltage 2"@,
            Series::Current => "Latest advertised current"@,
            Series::Power => "Latest advertised power"@,
            Series::Temperature => "Latest advertised temperature"@,
            Series::Soc => "Latest advertised state of charge"@,
            Series::Runtime => "Latest advertised runtime"@,
            Series::Rssi => "Latest advertised RSSI"@,
            Series::PowerStatusCode => "Latest advertised power status code"@,
            Series::ParquetLastWrite => "Unix timestamp of last successful Parquet write"@,
            Series::StateInputValue => "Latest state input value"@,
            Series::StateInputAge => "Age of latest state input sample"@,
            Series::HttpLastStatusCode => "Last HTTP action status code"@,
            Series::HttpRetryDelay => "Current HTTP action retry delay"@,
        }
    }

    /// Every such metric, in the order of exposition.
    pub open spec fn every() -> Seq<Series> {
        seq![
            Series::LastObservationTime,
            Series::Voltage1,
            Series::Voltage2,
            Series::Current,
            Series::Power,
            Series::Temperature,
            Series::Soc,
            Series::Runtime,
            Series::Rssi,
            Series::PowerStatusCode,
            Series::ParquetLastWrite,
            Series::StateInputValue,
            Series::StateInputAge,
            Series::HttpLastStatusCode,
            Series::HttpRetryDelay,
        ]
    }

    /// Returns every metric whose values are real numbers.
    pub fn all() -> (all: Vec<Series>)
        ensures
            all@ == Series::every(),
    {
        let mut all: Vec<Series> = Vec::new();
        all.push(Series::LastObservationTime);
        all.push(Series::Voltage1);
        all.push(Series::Voltage2);
        all.push(Series::Current);
        all.push(Series::Power);
        all.push(Series::Temperature);
        all.push(Series::Soc);
        all.push(Series::Runtime);
        all.push(Series::Rssi);
        all.push(Series::PowerStatusCode);
        all.push(Series::ParquetLastWrite);
        all.push(Series::StateInputValue);
        all.push(Series::StateInputAge);
        all.push(Series::HttpLastStatusCode);
        all.push(Series::HttpRetryDelay);
        all
    }

    /// Returns the metric name.
    pub fn name(self) -> (name: &'static str)
        ensures
            name@ == self.metric_name(),
    {
        match self {
            Series::LastObservationTime => "wattdog_last_observation_time_seconds",
            Series::Voltage1 => "wattdog_voltage1_volts",
            Series::Voltage2 => "wattdog_voltage2_volts",
            Series::Current => "wattdog_current_amperes",
            Series::Power => "wattdog_power_watts",
            Series::Temperature => "wattdog_temperature_celsius",
            Series::Soc => "wattdog_soc_percent",
            Series::Runtime => "wattdog_runtime_minutes",
            Series::Rssi => "wattdog_rssi_dbm",
            Series::PowerStatusCode => "wattdog_power_status_code",
            Series::ParquetLastWrite => "wattdog_parquet_last_successful_write_timestamp_seconds",
            Series::StateInputValue => "wattdog_state_input_value",
            Series::StateInputAge => "wattdog_state_input_age_seconds",
            Series::HttpLastStatusCode => "wattdog_http_last_status_code",
            Series::HttpRetryDelay => "wattdog_http_retry_delay_seconds",
        }
    }

    /// Returns the help text.
    pub fn help(self) -> (help: &'static str)
        ensures
            help@ == self.help_text(),
    {
        match self {
            Series::LastObservationTime => "Last observation timestamp by device",
            Series::Voltage1 => "Latest advertised voltage 1",
            Series::Voltage2 => "Latest advertised voltage 2",
            Series::Current => "Latest advertised current",
            Series::Power => "Latest advertised power",
            Series::Temperature => "Latest advertised temperature",
            Series::Soc => "Latest advertised state of charge",
            Series::Runtime => "Latest advertised runtime",
            Series::Rssi => "Latest advertised RSSI",
            Series::PowerStatusCode => "Latest advertised power status code",
            Series::ParquetLastWrite => "Unix timestamp of last successful Parquet write",
            Series::StateInputValue => "Latest state input value",
            Series::StateInputAge => "Age of latest state input sample",
            Series::HttpLastStatusCode => "Last HTTP action status code",
            Series::HttpRetryDelay => "Current HTTP action retry delay",
        }
    }
}

/// The number that a reading shows.
#[derive(Clone, Copy, Debug, PartialEq, Eq, Structural)]
pub enum ReadingValue {
    /// A whole number.
    Integer(i64),
    /// A single-precision number.
    Single(Single),
    /// A double-precision number.
    Double(Double),
    /// A span, in seconds.
    Seconds(Duration),
    /// No number.
    Missing,
}

/// A new value for one label set of a metric.
#[derive(Debug)]
pub struct Reading {
    /// The metric.
    pub series: Series,
    /// Label names with their values.
    pub labels: Vec<(String, String)>,
    /// The new value.
    pub value: ReadingValue,
}

/// What a reading says.
pub struct ReadingView {
    /// The metric.
    pub series: Series,
    /// Label names with their values.
    pub labels: Labels,
    /// The new value.
    pub value: ReadingValue,
}

impl View for Reading {
    type V = ReadingView;

    open spec fn view(&self) -> ReadingView {
        ReadingView { series: self.series, labels: self.labels.deep_view(), value: self.value }
    }
}

/// What each of some readings says.
pub open spec fn reading_views(readings: Seq<Reading>) -> Seq<ReadingView> {
    Seq::new(readings.len(), |i: int| readings[i]@)
}

/// Shared metrics and what is known of the devices, used by all runtime tasks.
#[derive(Debug)]
pub struct Metrics {
    board: Board,
    devices: HashMap<u64, Vec<(String, String)>>,
    readings: Vec<Reading>,
}

/// The values of all metrics.
#[verifier::ext_equal]
pub struct MetricsView {
    /// Series of the build information.
    pub build_info: Map<Labels, i64>,
    /// Aggregate scanner-running gauge.
    pub scanner_running: i64,
    /// BLE scanner-running gauge.
    pub scanner_ble_running: i64,
    /// Observations received.
    pub observations_received: u64,
    /// Observations dropped at the scanner queue.
    pub observations_dropped: u64,
    /// Observations dropped at the writer queue.
    pub writer_dropped_observations: u64,
    /// Number of serials seen.
    pub devices_seen: i64,
    /// Series of the device identities.
    pub device_info: Map<Labels, i64>,
    /// Observations received by device.
    pub device_observations_received: Map<Labels, u64>,
    /// Rows written.
    pub parquet_rows_written: u64,
    /// Batches written.
    pub parquet_batches_written: u64,
    /// Failed writes.
    pub parquet_write_errors: u64,
    /// Whether a file is open.
    pub parquet_active_file_open: i64,
    /// Rows in the open file.
    pub parquet_active_file_rows: i64,
    /// Completed files.
    pub parquet_rolls: u64,
    /// Whether the input of a state is stale.
    pub state_stale: Map<Labels, i64>,
    /// Whether a state is ambiguous.
    pub state_ambiguous: Map<Labels, i64>,
    /// Desired state.
    pub state_desired: Map<Labels, i64>,
    /// Applied state.
    pub state_applied: Map<Labels, i64>,
    /// Whether an action is pending.
    pub state_pending: Map<Labels, i64>,
    /// Default state.
    pub state_default: Map<Labels, i64>,
    /// Applied transitions.
    pub state_transitions: Map<Labels, u64>,
    /// Action attempts.
    pub http_attempts: Map<Labels, u64>,
    /// Whether an HTTP action is pending.
    pub http_pending: Map<Labels, i64>,
    /// Waits that timed out.
    pub action_wait_timeouts: Map<Labels, u64>,
    /// Step that a pending sequence is at.
    pub action_sequence_step: Map<Labels, i64>,
    /// The labels that identify each device seen so far, by serial.
    pub devices: Map<u64, Labels>,
    /// Readings that wait to be taken.
    pub readings: Seq<ReadingView>,
}

impl View for Metrics {
    type V = MetricsView;

    closed spec fn view(&self) -> MetricsView {
        values_of(self.board.entries(), device_views(self.devices@), reading_views(self.readings@))
    }
}

/// The labels that identify each device.
pub open spec fn device_views(devices: Map<u64, Vec<(String, String)>>) -> Map<u64, Labels> {
    Map::new(|serial: u64| devices.contains_key(serial), |serial: u64| devices[serial].deep_view())
}

/// The values in an exposition of the metrics of the daemon.
pub open spec fn values_of(
    entries: Seq<MetricEntry>,
    devices: Map<u64, Labels>,
    readings: Seq<ReadingView>,
) -> MetricsView {
    MetricsView {
        build_info: entries[BUILD_INFO as int].value->numbers,
        scanner_running: entries[SCANNER_RUNNING as int].value->number,
        scanner_ble_running: entries[SCANNER_BLE_RUNNING as int].value->number,
        observations_received: entries[OBSERVATIONS_RECEIVED as int].value->count,
        observations_dropped: entries[OBSERVATIONS_DROPPED as int].value->count,
        writer_dropped_observations: entries[WRITER_DROPPED_OBSERVATIONS as int].value->count,
        devices_seen: entries[DEVICES_SEEN as int].value->number,
        device_info: entries[DEVICE_INFO as int].value->numbers,
        device_observations_received: entries[DEVICE_OBSERVATIONS_RECEIVED as int].value->counts,
        parquet_rows_written: entries[PARQUET_ROWS_WRITTEN as int].value->count,
        parquet_batches_written: entries[PARQUET_BATCHES_WRITTEN as int].value->count,
        parquet_write_errors: entries[PARQUET_WRITE_ERRORS as int].value->count,
        parquet_active_file_open: entries[PARQUET_ACTIVE_FILE_OPEN as int].value->number,
        parquet_active_file_rows: entries[PARQUET_ACTIVE_FILE_ROWS as int].value->number,
        parquet_rolls: entries[PARQUET_ROLLS as int].value->count,
        state_stale: entries[STATE_STALE as int].value->numbers,
        state_ambiguous: entries[STATE_AMBIGUOUS as int].value->numbers,
        state_desired: entries[STATE_DESIRED as int].value->numbers,
        state_applied: entries[STATE_APPLIED as int].value->numbers,
        state_pending: entries[STATE_PENDING as int].value->numbers,
        state_default: entries[STATE_DEFAULT as int].value->numbers,
        state_transitions: entries[STATE_TRANSITIONS as int].value->counts,
        http_attempts: entries[HTTP_ATTEMPTS as int].value->counts,
        http_pending: entries[HTTP_PENDING as int].value->numbers,
        action_wait_timeouts: entries[ACTION_WAIT_TIMEOUTS as int].value->counts,
        action_sequence_step: entries[ACTION_SEQUENCE_STEP as int].value->numbers,
        devices,
        readings,
    }
}

/// A counter.
pub open spec fn counter_metric(name: &str, help: &str, count: u64) -> MetricEntry {
    metric(name@, help@, MetricValue::Counter { count })
}

/// A gauge.
pub open spec fn gauge_metric(name: &str, help: &str, number: i64) -> MetricEntry {
    metric(name@, help@, MetricValue::Gauge { number })
}

/// A family of counters.
pub open spec fn counters_metric(
    name: &str,
    help: &str,
    counts: Map<Labels, u64>,
) -> MetricEntry {
    metric(name@, help@, MetricValue::Counters { counts })
}

/// A family of gauges.
pub open spec fn gauges_metric(
    name: &str,
    help: &str,
    numbers: Map<Labels, i64>,
) -> MetricEntry {
    metric(name@, help@, MetricValue::Gauges { numbers })
}

/// Each counter and whole-number gauge with its value, in the order of exposition.
pub open spec fn exposed(view: MetricsView) -> Seq<MetricEntry> {
    seq![
        gauges_metric("wattdog_build_info", "Daemon build information", view.build_info),
        gauge_metric(
            "wattdog_up",
            "Whether any scanner transport is running",
            view.scanner_running,
        ),
        gauge_metric(
            "wattdog_ble_scanner_running",
            "Whether BLE scanner transport is running",
            view.scanner_ble_running,
        ),
        counter_metric(
            "wattdog_observations_received",
            "Observed Thornwave advertisements",
            view.observations_received,
        ),
        counter_metric(
            "wattdog_observations_dropped",
            "Observations dropped before processing",
            view.observations_dropped,
        ),
        counter_metric(
            "wattdog_writer_dropped_observations",
            "Observations dropped before Parquet writer enqueue",
            view.writer_dropped_observations,
        ),
        gauge_metric(
            "wattdog_devices_seen",
            "Number of Thornwave device serials seen",
            view.devices_seen,
        ),
        gauges_metric(
            "wattdog_device_info",
            "Latest Thornwave device identity information",
            view.device_info,
        ),
        counters_metric(
            "wattdog_device_observations_received",
            "Observed advertisements by device",
            view.device_observations_received,
        ),
        counter_metric(
            "wattdog_parquet_rows_written",
            "Rows written to Parquet",
            view.parquet_rows_written,
        ),
        counter_metric(
            "wattdog_parquet_batches_written",
            "Record batches written to Parquet",
            view.parquet_batches_written,
        ),
        counter_metric(
            "wattdog_parquet_write_errors",
            "Parquet write errors",
            view.parquet_write_errors,
        ),
        gauge_metric(
            "wattdog_parquet_active_file_open",
            "Whether a Parquet active file is open",
            view.parquet_active_file_open,
        ),
        gauge_metric(
            "wattdog_parquet_active_file_rows",
            "Rows written to current active Parquet file",
            view.parquet_active_file_rows,
        ),
        counter_metric("wattdog_parquet_rolls", "Completed Parquet file rolls", view.parquet_rolls),
        gauges_metric(
            "wattdog_state_stale",
            "Whether latest state input is stale",
            view.state_stale,
        ),
        gauges_metric(
            "wattdog_state_ambiguous",
            "Whether state conditions are ambiguous",
            view.state_ambiguous,
        ),
        gauges_metric(
            "wattdog_state_desired",
            "Desired state: on=1, off=0, unknown=-1",
            view.state_desired,
        ),
        gauges_metric(
            "wattdog_state_applied",
            "Applied state: on=1, off=0, unknown=-1",
            view.state_applied,
        ),
        gauges_metric("wattdog_state_pending", "Whether an action is pending", view.state_pending),
        gauges_metric(
            "wattdog_state_default",
            "Configured default state: on=1, off=0",
            view.state_default,
        ),
        counters_metric(
            "wattdog_state_transitions",
            "State desired transitions",
            view.state_transitions,
        ),
        counters_metric("wattdog_http_attempts", "HTTP action attempts", view.http_attempts),
        gauges_metric(
            "wattdog_http_pending",
            "Whether an HTTP action is pending",
            view.http_pending,
        ),
        counters_metric(
            "wattdog_action_wait_timeouts",
            "JSON waits that reached their deadline",
            view.action_wait_timeouts,
        ),
        gauges_metric(
            "wattdog_action_sequence_step",
            "Current action sequence step, none=-1",
            view.action_sequence_step,
        ),
    ]
}

/// A complete exposition exposes its values.
proof fn lemma_complete_is_exposed(
    entries: Seq<MetricEntry>,
    devices: Map<u64, Labels>,
    readings: Seq<ReadingView>,
)
    requires
        complete(entries),
    ensures
        exposed(values_of(entries, devices, readings)) == entries,
{
    assert(exposed(values_of(entries, devices, readings)) =~= entries);
}

/// All metrics before anything was counted or set.
pub open spec fn blank() -> MetricsView {
    MetricsView {
        build_info: no_values(),
        scanner_running: 0,
        scanner_ble_running: 0,
        observations_received: 0,
        observations_dropped: 0,
        writer_dropped_observations: 0,
        devices_seen: 0,
        device_info: no_values(),
        device_observations_received: no_counts(),
        parquet_rows_written: 0,
        parquet_batches_written: 0,
        parquet_write_errors: 0,
        parquet_active_file_open: 0,
        parquet_active_file_rows: 0,
        parquet_rolls: 0,
        state_stale: no_values(),
        state_ambiguous: no_values(),
        state_desired: no_values(),
        state_applied: no_values(),
        state_pending: no_values(),
        state_default: no_values(),
        state_transitions: no_counts(),
        http_attempts: no_counts(),
        http_pending: no_values(),
        action_wait_timeouts: no_counts(),
        action_sequence_step: no_values(),
        devices: Map::empty(),
        readings: Seq::empty(),
    }
}

/// All metrics of a daemon that has just started.
pub open spec fn initial(version: Seq<char>) -> MetricsView {
    MetricsView { build_info: no_values().insert(seq![("version"@, version)], 1), ..blank() }
}

/// Whether a text shows all metrics: their exposition, further ones, and the marker of the
/// end.
pub open spec fn is_scrape(text: Seq<char>, view: MetricsView, further: Seq<char>) -> bool {
    exists|own: Seq<char>| #[trigger]
        exposes(own, exposed(view)) && text == own + further + "# EOF\n"@
}

/// Metric text could not be written.
#[derive(Clone, Copy, Debug, PartialEq, Eq, Structural)]
pub struct EncodeError;

/// A truth value as a metric.
pub open spec fn bool_number(value: bool) -> i64 {
    if value {
        1
    } else {
        0
    }
}

/// A state as a metric, where an unknown one is -1.
pub open spec fn state_number(state: Option<BinaryState>) -> i64 {
    match state {
        Some(state) => state.number(),
        None => -1i64,
    }
}

/// A count as a metric, which stops at the largest value of a gauge.
pub open spec fn gauge_count(count: int) -> i64 {
    if count <= i64::MAX {
        count as i64
    } else {
        i64::MAX
    }
}

/// The labels of a device.
pub open spec fn device_labels(serial: u64) -> Labels {
    seq![("serial"@, decimal(serial as nat))]
}

/// A text, or the empty one.
pub open spec fn text_or_empty(text: Option<String>) -> Seq<char> {
    match text {
        Some(text) => text@,
        None => Seq::empty(),
    }
}

/// The labels that identify the device of a sample.
pub open spec fn device_info_labels(sample: Sample) -> Labels {
    seq![
        ("serial"@, decimal(sample.serial as nat)),
        ("name"@, text_or_empty(sample.name)),
        ("model"@, text_or_empty(sample.model)),
        ("address"@, text_or_empty(sample.address_display)),
        ("firmware_version"@, text_or_empty(sample.firmware_version)),
        ("rssi_dbm"@, signed_decimal(sample.rssi_dbm as int)),
    ]
}

/// The labels of a state.
pub open spec fn state_label(name: Seq<char>) -> Labels {
    seq![("name"@, name)]
}

/// The labels of a state and one of its targets.
pub open spec fn target_labels(name: Seq<char>, target: BinaryState) -> Labels {
    seq![("name"@, name), ("target"@, target.label())]
}

/// The labels of an action attempt.
pub open spec fn attempt_labels(name: Seq<char>, target: BinaryState, success: bool) -> Labels {
    seq![
        ("name"@, name),
        ("target"@, target.label()),
        (
            "result"@,
            if success {
                "success"@
            } else {
                "failure"@
            },
        ),
    ]
}

/// An optional whole number as a reading.
pub open spec fn optional_integer(value: Option<i64>) -> ReadingValue {
    match value {
        Some(value) => ReadingValue::Integer(value),
        None => ReadingValue::Missing,
    }
}

/// The readings of a sample.
pub open spec fn sample_readings(sample: Sample) -> Seq<ReadingView> {
    let labels = device_labels(sample.serial);
    let soc = match sample.soc_percent {
        Some(percent) => Some(percent as i64),
        None => None,
    };
    let runtime = match sample.runtime_minutes {
        Some(minutes) => Some(minutes as i64),
        None => None,
    };
    seq![
        ReadingView {
            series: Series::LastObservationTime,
            labels,
            value: ReadingValue::Integer(sample.observed_at.secs),
        },
        ReadingView {
            series: Series::Voltage1,
            labels,
            value: ReadingValue::Single(sample.voltage1_volts),
        },
        ReadingView {
            series: Series::Voltage2,
            labels,
            value: ReadingValue::Single(sample.voltage2_volts),
        },
        ReadingView {
            series: Series::Current,
            labels,
            value: ReadingValue::Single(sample.current_amps),
        },
        ReadingView {
            series: Series::Power,
            labels,
            value: ReadingValue::Single(sample.power_watts),
        },
        ReadingView {
            series: Series::Temperature,
            labels,
            value: ReadingValue::Single(sample.temperature_celsius),
        },
        ReadingView { series: Series::Soc, labels, value: optional_integer(soc) },
        ReadingView { series: Series::Runtime, labels, value: optional_integer(runtime) },
        ReadingView {
            series: Series::Rssi,
            labels,
            value: ReadingValue::Integer(sample.rssi_dbm as i64),
        },
        ReadingView {
            series: Series::PowerStatusCode,
            labels,
            value: ReadingValue::Integer(sample.power_status_code as i64),
        },
    ]
}

impl MetricsView {
    /// The metrics after one more reading.
    pub open spec fn read(
        self,
        series: Series,
        labels: Labels,
        value: ReadingValue,
    ) -> MetricsView {
        MetricsView {
            readings: self.readings.push(ReadingView { series, labels, value }),
            ..self
        }
    }

    /// The device information without that of one device.
    pub open spec fn without_device(self, serial: u64) -> Map<Labels, i64> {
        if self.devices.contains_key(serial) {
            self.device_info.remove(self.devices[serial])
        } else {
            self.device_info
        }
    }

    /// The metrics after a sample was received. It replaces what was known of the device.
    pub open spec fn sampled(self, sample: Sample) -> MetricsView {
        MetricsView {
            observations_received: increased(self.observations_received, 1),
            devices: self.devices.insert(sample.serial, device_info_labels(sample)),
            devices_seen: if self.devices.contains_key(sample.serial) {
                self.devices_seen
            } else {
                gauge_count(self.devices.dom().insert(sample.serial).len() as int)
            },
            device_observations_received: counted(
                self.device_observations_received,
                device_labels(sample.serial),
            ),
            device_info: self.without_device(sample.serial).insert(device_info_labels(sample), 1),
            readings: self.readings + sample_readings(sample),
            ..self
        }
    }

    /// The metrics after a batch of rows was written.
    pub open spec fn rows_written(
        self,
        rows: u64,
        active_file_rows: u64,
        now: UtcTime,
    ) -> MetricsView {
        MetricsView {
            parquet_rows_written: increased(self.parquet_rows_written, rows),
            parquet_batches_written: increased(self.parquet_batches_written, 1),
            parquet_active_file_rows: gauge_count(active_file_rows as int),
            ..self.read(
                Series::ParquetLastWrite,
                Seq::empty(),
                ReadingValue::Integer(now.secs),
            )
        }
    }

    /// The metrics after a state took in a value of a given age.
    pub open spec fn input_observed(
        self,
        name: Seq<char>,
        field: Seq<char>,
        value: Double,
        age: Duration,
    ) -> MetricsView {
        self.read(
            Series::StateInputValue,
            seq![("name"@, name), ("field"@, field)],
            ReadingValue::Double(value),
        ).input_aged(name, age)
    }

    /// The metrics after the age of the input of a state is known.
    pub open spec fn input_aged(self, name: Seq<char>, age: Duration) -> MetricsView {
        self.read(Series::StateInputAge, state_label(name), ReadingValue::Seconds(age))
    }

    /// The metrics after the status of a state is known.
    pub open spec fn status_set(
        self,
        name: Seq<char>,
        stale: bool,
        ambiguous: bool,
        desired: Option<BinaryState>,
        applied: Option<BinaryState>,
        pending: Option<BinaryState>,
        default_state: BinaryState,
    ) -> MetricsView {
        let labels = state_label(name);
        MetricsView {
            state_stale: self.state_stale.insert(labels, bool_number(stale)),
            state_ambiguous: self.state_ambiguous.insert(labels, bool_number(ambiguous)),
            state_desired: self.state_desired.insert(labels, state_number(desired)),
            state_applied: self.state_applied.insert(labels, state_number(applied)),
            state_pending: self.state_pending.insert(labels, bool_number(pending is Some)),
            http_pending: self.http_pending.insert(labels, bool_number(pending is Some)),
            state_default: self.state_default.insert(labels, default_state.number()),
            ..self
        }
    }

    /// The metrics after a target was applied.
    pub open spec fn transitioned(self, name: Seq<char>, target: BinaryState) -> MetricsView {
        MetricsView {
            state_transitions: counted(self.state_transitions, target_labels(name, target)),
            ..self
        }
    }

    /// The metrics after an attempt of an action.
    pub open spec fn attempted(
        self,
        name: Seq<char>,
        target: BinaryState,
        success: bool,
        status: Option<u16>,
    ) -> MetricsView {
        let counted_view = MetricsView {
            http_attempts: counted(self.http_attempts, attempt_labels(name, target, success)),
            ..self
        };
        match status {
            Some(status) => counted_view.read(
                Series::HttpLastStatusCode,
                state_label(name),
                ReadingValue::Integer(status as i64),
            ),
            None => counted_view,
        }
    }

    /// The metrics after a wait has reached its deadline.
    pub open spec fn wait_timed_out(self, name: Seq<char>, target: BinaryState) -> MetricsView {
        MetricsView {
            action_wait_timeouts: counted(self.action_wait_timeouts, target_labels(name, target)),
            ..self
        }
    }

    /// The metrics after the step of a pending sequence is known.
    pub open spec fn step_set(self, name: Seq<char>, step: Option<usize>) -> MetricsView {
        MetricsView {
            action_sequence_step: self.action_sequence_step.insert(
                state_label(name),
                match step {
                    Some(step) => gauge_count(step as int),
                    None => -1i64,
                },
            ),
            ..self
        }
    }

    /// The metrics after the time until the next attempt is known.
    pub open spec fn retry_delay_set(self, name: Seq<char>, delay: Duration) -> MetricsView {
        self.read(Series::HttpRetryDelay, state_label(name), ReadingValue::Seconds(delay))
    }
}

impl Metrics {
    /// Creates and registers every counter and whole-number gauge of the daemon.
    ///
    /// `version` is embedded in `wattdog_build_info`. The registry is owned by this
    /// object and encoded on demand by the HTTP `/metrics` route.
    pub fn new(version: &'static str) -> (metrics: Self)
        ensures
            metrics@ == initial(version@),
    {
        broadcast use vstd::std_specs::hash::group_hash_axioms;

        let mut board = Board::new();
        board.set_one(BUILD_INFO, &one_label("version", version), 1);
        let metrics = Metrics { board, devices: HashMap::new(), readings: Vec::new() };
        assert(metrics@.devices =~= Map::empty());
        assert(metrics@.readings =~= Seq::empty());
        assert(metrics@ =~= initial(version@));
        metrics
    }

    /// Encodes the metrics in Prometheus/OpenMetrics text format.
    ///
    /// Each metric is introduced by its name, help text and type, and has a line for each
    /// label set with its value. The marker of the end comes last.
    ///
    /// # Errors
    ///
    /// Returns an error if metric text encoding fails, which it never does.
    pub fn encode(&self) -> (text: Result<String, EncodeError>)
        ensures
            text is Ok,
            is_scrape(text->Ok_0@, self@, Seq::empty()),
    {
        proof {
            reveal_strlit("");
            assert(""@ =~= Seq::empty());
        }
        self.encode_with("")
    }

    /// Encodes the metrics together with further ones that are text already, which stand
    /// between these and the marker of the end.
    ///
    /// # Errors
    ///
    /// Returns an error if metric text encoding fails, which it never does.
    pub fn encode_with(&self, further: &str) -> (text: Result<String, EncodeError>)
        ensures
            text is Ok,
            is_scrape(text->Ok_0@, self@, further@),
    {
        match self.board.text() {
            Ok(own) => {
                proof {
                    lemma_complete_is_exposed(
                        self.board.entries(),
                        self@.devices,
                        self@.readings,
                    );
                }
                let ghost exposition = own@;
                let mut text: String = own;
                text.append(further);
                match encode_end(&mut text) {
                    Ok(()) => {
                        assert(text@ =~= exposition + further@ + "# EOF\n"@);
                        Ok(text)
                    },
                    Err(_) => Err(EncodeError),
                }
            },
            Err(_) => Err(EncodeError),
        }
    }

    /// Takes the readings that were made since they were last taken, in order.
    pub fn take_readings(&mut self) -> (readings: Vec<Reading>)
        ensures
            reading_views(readings@) == old(self)@.readings,
            final(self)@ == (MetricsView { readings: Seq::empty(), ..old(self)@ }),
    {
        let mut readings: Vec<Reading> = Vec::new();
        readings.append(&mut self.readings);
        assert(reading_views(readings@) =~= old(self)@.readings);
        assert(self@.readings =~= Seq::empty());
        readings
    }

    /// Sets the aggregate scanner-running gauge.
    pub fn set_scanner_running(&mut self, running: bool)
        ensures
            final(self)@ == (MetricsView { scanner_running: bool_number(running), ..old(self)@ }),
    {
        self.board.set(SCANNER_RUNNING, bool_metric(running));
    }

    /// Sets the BLE scanner-running gauge.
    pub fn set_ble_running(&mut self, running: bool)
        ensures
            final(self)@ == (MetricsView {
                scanner_ble_running: bool_number(running),
                ..old(self)@
            }),
    {
        self.board.set(SCANNER_BLE_RUNNING, bool_metric(running));
    }

    /// Returns whether BLE scanning has been marked running.
    pub fn any_scanner_transport_running(&self) -> (answer: bool)
        ensures
            answer == (self@.scanner_ble_running == 1),
    {
        self.board.get(SCANNER_BLE_RUNNING) == 1
    }

    /// Records an observation dropped at the scanner callback queue boundary.
    pub fn observe_scanner_dropped(&mut self)
        ensures
            final(self)@ == (MetricsView {
                observations_dropped: increased(old(self)@.observations_dropped, 1),
                ..old(self)@
            }),
    {
        self.board.increase(OBSERVATIONS_DROPPED, 1);
    }

    /// Records an observation dropped before enqueueing to the Parquet writer.
    pub fn observe_writer_dropped(&mut self)
        ensures
            final(self)@ == (MetricsView {
                writer_dropped_observations: increased(old(self)@.writer_dropped_observations, 1),
                ..old(self)@
            }),
    {
        self.board.increase(WRITER_DROPPED_OBSERVATIONS, 1);
    }

    /// Updates global and per-device latest metrics for a received sample.
    ///
    /// This increments observation counters, tracks new serials, updates latest
    /// electrical values, and refreshes the low-cardinality device info metric.
    pub fn observe_sample(&mut self, sample: &Sample)
        ensures
            final(self)@ == old(self)@.sampled(*sample),
    {
        self.board.increase(OBSERVATIONS_RECEIVED, 1);
        self.track_device(sample.serial, identity_labels(sample));

        let serial = decimal_text(sample.serial);
        let labels = one_label("serial", serial.as_str());
        self.board.increase_one(DEVICE_OBSERVATIONS_RECEIVED, &labels);
        let ghost before = *self;
        self.read_device(
            Series::LastObservationTime,
            &serial,
            ReadingValue::Integer(sample.observed_at.secs),
        );
        self.read_device(Series::Voltage1, &serial, ReadingValue::Single(sample.voltage1_volts));
        self.read_device(Series::Voltage2, &serial, ReadingValue::Single(sample.voltage2_volts));
        self.read_device(Series::Current, &serial, ReadingValue::Single(sample.current_amps));
        self.read_device(Series::Power, &serial, ReadingValue::Single(sample.power_watts));
        self.read_device(
            Series::Temperature,
            &serial,
            ReadingValue::Single(sample.temperature_celsius),
        );
        self.read_device(
            Series::Soc,
            &serial,
            match sample.soc_percent {
                Some(percent) => ReadingValue::Integer(percent as i64),
                None => ReadingValue::Missing,
            },
        );
        self.read_device(
            Series::Runtime,
            &serial,
            match sample.runtime_minutes {
                Some(minutes) => ReadingValue::Integer(minutes as i64),
                None => ReadingValue::Missing,
            },
        );
        self.read_device(
            Series::Rssi,
            &serial,
            ReadingValue::Integer(sample.rssi_dbm as i64),
        );
        self.read_device(
            Series::PowerStatusCode,
            &serial,
            ReadingValue::Integer(sample.power_status_code as i64),
        );
        assert(self@.readings =~= before@.readings + sample_readings(*sample));
    }

    /// Records a successful Parquet record-batch write.
    ///
    /// `rows` is the number of rows in the just-written batch and
    /// `active_file_rows` is the total row count in the current active file.
    pub fn parquet_rows_written(&mut self, rows: u64, active_file_rows: u64, now: UtcTime)
        ensures
            final(self)@ == old(self)@.rows_written(rows, active_file_rows, now),
    {
        self.board.increase(PARQUET_ROWS_WRITTEN, rows);
        self.board.increase(PARQUET_BATCHES_WRITTEN, 1);
        self.board.set(PARQUET_ACTIVE_FILE_ROWS, count_metric(active_file_rows));
        let no_labels: Vec<(String, String)> = Vec::new();
        assert(no_labels.deep_view() =~= Seq::empty());
        self.read(Series::ParquetLastWrite, no_labels, ReadingValue::Integer(now.secs));
    }

    /// Records a Parquet write or conversion error.
    pub fn parquet_write_error(&mut self)
        ensures
            final(self)@ == (MetricsView {
                parquet_write_errors: increased(old(self)@.parquet_write_errors, 1),
                ..old(self)@
            }),
    {
        self.board.increase(PARQUET_WRITE_ERRORS, 1);
    }

    /// Sets whether the writer currently has an active `.parquet.inprogress` file.
    pub fn set_parquet_active_file_open(&mut self, open: bool)
        ensures
            final(self)@ == (MetricsView {
                parquet_active_file_open: bool_number(open),
                ..old(self)@
            }),
    {
        self.board.set(PARQUET_ACTIVE_FILE_OPEN, bool_metric(open));
    }

    /// Sets the number of rows written to the active Parquet file.
    pub fn set_parquet_active_file_rows(&mut self, rows: u64)
        ensures
            final(self)@ == (MetricsView {
                parquet_active_file_rows: gauge_count(rows as int),
                ..old(self)@
            }),
    {
        self.board.set(PARQUET_ACTIVE_FILE_ROWS, count_metric(rows));
    }

    /// Records a completed Parquet file roll/finalization.
    pub fn parquet_roll(&mut self)
        ensures
            final(self)@ == (MetricsView {
                parquet_rolls: increased(old(self)@.parquet_rolls, 1),
                ..old(self)@
            }),
    {
        self.board.increase(PARQUET_ROLLS, 1);
    }

    /// Updates latest input metrics for one configured state.
    pub fn observe_state_input(&mut self, name: &str, field: &str, value: Double, age: Duration)
        ensures
            final(self)@ == old(self)@.input_observed(name@, field@, value, age),
    {
        let labels = with_label(one_label("name", name), "field", field);
        assert(labels.deep_view() =~= seq![("name"@, name@), ("field"@, field@)]);
        self.read(Series::StateInputValue, labels, ReadingValue::Double(value));
        self.set_state_input_age(name, age);
    }

    /// Updates the latest input age for one configured state.
    pub fn set_state_input_age(&mut self, name: &str, age: Duration)
        ensures
            final(self)@ == old(self)@.input_aged(name@, age),
    {
        self.read(Series::StateInputAge, state_labels(name), ReadingValue::Seconds(age));
    }

    /// Updates current gauges for one configured state.
    pub fn set_state_status(
        &mut self,
        name: &str,
        stale: bool,
        ambiguous: bool,
        desired: Option<BinaryState>,
        applied: Option<BinaryState>,
        pending: Option<BinaryState>,
        default_state: BinaryState,
    )
        ensures
            final(self)@ == old(self)@.status_set(
                name@,
                stale,
                ambiguous,
                desired,
                applied,
                pending,
                default_state,
            ),
    {
        let labels = state_labels(name);
        let is_pending: bool = pending.is_some();
        self.board.set_one(STATE_STALE, &labels, bool_metric(stale));
        self.board.set_one(STATE_AMBIGUOUS, &labels, bool_metric(ambiguous));
        self.board.set_one(STATE_DESIRED, &labels, state_metric(desired));
        self.board.set_one(STATE_APPLIED, &labels, state_metric(applied));
        self.board.set_one(STATE_PENDING, &labels, bool_metric(is_pending));
        self.board.set_one(HTTP_PENDING, &labels, bool_metric(is_pending));
        self.board.set_one(STATE_DEFAULT, &labels, default_state.metric_value());
    }

    /// Records a transition that was applied.
    pub fn state_transition(&mut self, name: &str, target: BinaryState)
        ensures
            final(self)@ == old(self)@.transitioned(name@, target),
    {
        let labels = state_target_labels(name, target);
        self.board.increase_one(STATE_TRANSITIONS, &labels);
    }

    /// Records one HTTP action attempt outcome.
    pub fn http_attempt(
        &mut self,
        name: &str,
        target: BinaryState,
        success: bool,
        status: Option<u16>,
    )
        ensures
            final(self)@ == old(self)@.attempted(name@, target, success, status),
    {
        let result: &str = if success {
            "success"
        } else {
            "failure"
        };
        let labels = with_label(state_target_labels(name, target), "result", result);
        assert(labels.deep_view() =~= attempt_labels(name@, target, success));
        self.board.increase_one(HTTP_ATTEMPTS, &labels);

        if let Some(status) = status {
            self.read(
                Series::HttpLastStatusCode,
                state_labels(name),
                ReadingValue::Integer(status as i64),
            );
        }
    }

    /// Records a JSON wait that reached its deadline.
    pub fn action_wait_timeout(&mut self, name: &str, target: BinaryState)
        ensures
            final(self)@ == old(self)@.wait_timed_out(name@, target),
    {
        let labels = state_target_labels(name, target);
        self.board.increase_one(ACTION_WAIT_TIMEOUTS, &labels);
    }

    /// Updates the current sequence step for one configured state.
    pub fn set_action_sequence_step(&mut self, name: &str, step: Option<usize>)
        ensures
            final(self)@ == old(self)@.step_set(name@, step),
    {
        let labels = state_labels(name);
        let value: i64 = match step {
            Some(step) => count_metric(step as u64),
            None => -1,
        };
        self.board.set_one(ACTION_SEQUENCE_STEP, &labels, value);
    }

    /// Updates the current retry delay for one configured state.
    pub fn set_http_retry_delay(&mut self, name: &str, delay: Duration)
        ensures
            final(self)@ == old(self)@.retry_delay_set(name@, delay),
    {
        self.read(Series::HttpRetryDelay, state_labels(name), ReadingValue::Seconds(delay));
    }

    fn track_device(&mut self, serial: u64, identity: Vec<(String, String)>)
        ensures
            final(self)@ == (MetricsView {
                devices: old(self)@.devices.insert(serial, identity.deep_view()),
                devices_seen: if old(self)@.devices.contains_key(serial) {
                    old(self)@.devices_seen
                } else {
                    gauge_count(old(self)@.devices.dom().insert(serial).len() as int)
                },
                device_info: old(self)@.without_device(serial).insert(identity.deep_view(), 1),
                ..old(self)@
            }),
    {
        broadcast use vstd::std_specs::hash::group_hash_axioms;

        let ghost before = self.devices@;
        let known: bool = match self.devices.get(&serial) {
            Some(earlier) => {
                self.board.remove_one(DEVICE_INFO, earlier);
                true
            },
            None => false,
        };
        self.board.set_one(DEVICE_INFO, &identity, 1);
        self.devices.insert(serial, identity);
        if !known {
            let count: usize = self.devices.len();
            self.board.set(DEVICES_SEEN, count_metric(count as u64));
        }
        assert(device_views(before).dom() =~= before.dom());
        assert(self.devices@ == before.insert(serial, identity));
        assert(self.devices@.dom() =~= before.dom().insert(serial));
        assert(self@.devices =~= device_views(before).insert(serial, identity.deep_view()));
    }

    fn read_device(&mut self, series: Series, serial: &String, value: ReadingValue)
        ensures
            final(self)@ == old(self)@.read(series, seq![("serial"@, serial@)], value),
    {
        self.read(series, one_label("serial", serial.as_str()), value);
    }

    fn read(&mut self, series: Series, labels: Vec<(String, String)>, value: ReadingValue)
        ensures
            final(self)@ == old(self)@.read(series, labels.deep_view(), value),
    {
        self.readings.push(Reading { series, labels, value });
        assert(self@.readings =~= old(self)@.readings.push(
            ReadingView { series, labels: labels.deep_view(), value },
        ));
    }
}

fn with_label(labels: Vec<(String, String)>, key: &str, value: &str) -> (longer: Vec<
    (String, String),
>)
    ensures
        longer.deep_view() == labels.deep_view().push((key@, value@)),
{
    let mut longer = labels;
    longer.push((key.to_owned(), value.to_owned()));
    assert(longer.deep_view() =~= labels.deep_view().push((key@, value@)));
    longer
}

fn one_label(key: &str, value: &str) -> (labels: Vec<(String, String)>)
    ensures
        labels.deep_view() == seq![(key@, value@)],
{
    let none: Vec<(String, String)> = Vec::new();
    let labels = with_label(none, key, value);
    assert(labels.deep_view() =~= seq![(key@, value@)]);
    labels
}

fn identity_labels(sample: &Sample) -> (labels: Vec<(String, String)>)
    ensures
        labels.deep_view() == device_info_labels(*sample),
{
    let serial = decimal_text(sample.serial);
    let rssi = signed_text(sample.rssi_dbm as i64);
    let labels = one_label("serial", serial.as_str());
    let labels = with_label(labels, "name", or_empty(&sample.name));
    let labels = with_label(labels, "model", or_empty(&sample.model));
    let labels = with_label(labels, "address", or_empty(&sample.address_display));
    let labels = with_label(labels, "firmware_version", or_empty(&sample.firmware_version));
    let labels = with_label(labels, "rssi_dbm", rssi.as_str());
    assert(labels.deep_view() =~= device_info_labels(*sample));
    labels
}

fn state_labels(name: &str) -> (labels: Vec<(String, String)>)
    ensures
        labels.deep_view() == state_label(name@),
{
    one_label("name", name)
}

fn state_target_labels(name: &str, target: BinaryState) -> (labels: Vec<(String, String)>)
    ensures
        labels.deep_view() == target_labels(name@, target),
{
    let labels = with_label(state_labels(name), "target", target.as_str());
    assert(labels.deep_view() =~= target_labels(name@, target));
    labels
}

fn or_empty(text: &Option<String>) -> (shown: &str)
    ensures
        shown@ == text_or_empty(*text),
{
    match text {
        Some(text) => text.as_str(),
        None => {
            proof {
                reveal_strlit("");
                assert(""@ =~= Seq::empty());
            }
            ""
        },
    }
}

fn bool_metric(value: bool) -> (number: i64)
    ensures
        number == bool_number(value),
{
    if value {
        1
    } else {
        0
    }
}

fn count_metric(count: u64) -> (number: i64)
    ensures
        number == gauge_count(count as int),
{
    if count <= 0x7fff_ffff_ffff_ffff {
        count as i64
    } else {
        i64::MAX
    }
}

fn state_metric(state: Option<BinaryState>) -> (number: i64)
    ensures
        number == state_number(state),
{
    match state {
        Some(state) => state.metric_value(),
        None => -1,
    }
}

} // verus!
