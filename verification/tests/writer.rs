use wattdog::calendar::UtcTime;
use wattdog::config::RollPeriod;
use wattdog::float::Single;
use wattdog::metrics::{Metrics, ReadingValue, Series};
use wattdog::parquet_writer::files::FilePaths;
use wattdog::parquet_writer::task::{ParquetWriterConfig, WriterCommand, WriterTask, BATCH_ROWS};
use wattdog::sample::Sample;

const NOON: UtcTime = UtcTime {
    secs: 1_782_043_200,
    nanos: 0,
};

fn after(secs: i64) -> UtcTime {
    UtcTime {
        secs: NOON.secs + secs,
        nanos: 7,
    }
}

fn task() -> WriterTask {
    WriterTask::new(ParquetWriterConfig::new(
        "/data".to_string(),
        RollPeriod::Hourly,
    ))
}

fn sample(serial: u64) -> Sample {
    let zero = Single { bits: 0 };
    Sample {
        schema_version: 1,
        observed_at: NOON,
        serial,
        address_raw: 0,
        address_display: None,
        address_kind: None,
        name: None,
        model: None,
        firmware_version_bcd: 0,
        firmware_version: None,
        hardware_revision_bcd: 0,
        hardware_revision: None,
        device_time_raw: 0,
        flags_raw: 0,
        voltage1_volts: zero,
        voltage2_volts: zero,
        current_amps: zero,
        power_watts: zero,
        coulomb_meter_raw: zero,
        power_meter_raw: zero,
        temperature_celsius: zero,
        temperature_is_external: false,
        power_status_code: 0,
        power_status: None,
        soc_raw: 0,
        soc_percent: None,
        runtime_raw: 0,
        runtime_minutes: None,
        rssi_dbm: 0,
    }
}

fn serials(task: &WriterTask) -> Vec<u64> {
    task.batch().iter().map(|sample| sample.serial).collect()
}

fn open(task: &mut WriterTask, metrics: &mut Metrics, now: UtcTime) -> String {
    match task.next(now) {
        WriterCommand::Open {
            directory,
            window_start,
        } => {
            let paths = FilePaths {
                inprogress: format!("{directory}/a.parquet.inprogress"),
                complete: format!("{directory}/a.parquet"),
            };
            task.opened(window_start, paths, metrics);
            directory
        }
        other => panic!("unexpected {other:?}"),
    }
}

fn has(metrics: &Metrics, line: &str) -> bool {
    metrics
        .encode()
        .expect("metrics")
        .contains(&format!("{line}\n"))
}

#[test]
fn first_sample_opens_a_file_and_waits_in_the_buffer() {
    let mut metrics = Metrics::new("test");
    let mut task = task();
    assert!(matches!(task.next(NOON), WriterCommand::Await));
    task.receive(sample(1), NOON);
    let directory = open(&mut task, &mut metrics, NOON);
    assert_eq!(directory, "/data/samples/date=2026-06-21/hour=12");
    assert!(has(&metrics, "wattdog_parquet_active_file_open 1"));
    assert!(matches!(task.next(NOON), WriterCommand::Await));
    assert_eq!(serials(&task), vec![1]);
}

#[test]
fn interval_writes_buffered_samples_in_order() {
    let mut metrics = Metrics::new("test");
    let mut task = task();
    task.receive(sample(1), NOON);
    open(&mut task, &mut metrics, NOON);
    assert!(matches!(task.next(NOON), WriterCommand::Await));
    task.receive(sample(2), after(1));
    assert!(matches!(task.next(after(1)), WriterCommand::Await));
    task.interval_elapsed(after(10));
    assert!(matches!(task.next(after(10)), WriterCommand::Write));
    assert_eq!(serials(&task), vec![1, 2]);
    metrics.take_readings();
    task.written(&mut metrics, after(10));
    assert!(matches!(task.next(after(10)), WriterCommand::Await));
    assert!(task.batch().is_empty());
    assert!(has(&metrics, "wattdog_parquet_rows_written_total 2"));
    assert!(has(&metrics, "wattdog_parquet_batches_written_total 1"));
    assert!(has(&metrics, "wattdog_parquet_active_file_rows 2"));
    let readings = metrics.take_readings();
    assert_eq!(readings[0].series, Series::ParquetLastWrite);
    assert_eq!(
        readings[0].value,
        ReadingValue::Integer(after(10).secs)
    );
    assert!(readings[0].labels.is_empty());

    task.interval_elapsed(after(20));
    assert!(matches!(task.next(after(20)), WriterCommand::Await));
}

#[test]
fn full_buffer_is_written_at_once() {
    let mut metrics = Metrics::new("test");
    let mut task = task();
    for serial in 0..BATCH_ROWS {
        task.receive(sample(serial as u64), NOON);
        if serial == 0 {
            open(&mut task, &mut metrics, NOON);
        }
        let command = task.next(NOON);
        if serial + 1 < BATCH_ROWS {
            assert!(matches!(command, WriterCommand::Await));
        } else {
            assert!(matches!(command, WriterCommand::Write));
        }
    }
    assert_eq!(task.batch().len(), BATCH_ROWS);
    task.written(&mut metrics, NOON);
    assert!(matches!(task.next(NOON), WriterCommand::Await));
    assert!(has(&metrics, "wattdog_parquet_rows_written_total 4096"));
}

#[test]
fn next_window_completes_the_file_before_it_takes_the_sample() {
    let mut metrics = Metrics::new("test");
    let mut task = task();
    task.receive(sample(1), after(3599));
    open(&mut task, &mut metrics, after(3599));
    assert!(matches!(task.next(after(3599)), WriterCommand::Await));

    let now = after(3600);
    task.receive(sample(2), now);
    assert!(matches!(task.next(now), WriterCommand::Write));
    assert_eq!(serials(&task), vec![1]);
    task.written(&mut metrics, now);
    match task.next(now) {
        WriterCommand::Close { inprogress } => assert_eq!(
            inprogress,
            "/data/samples/date=2026-06-21/hour=12/a.parquet.inprogress"
        ),
        other => panic!("unexpected {other:?}"),
    }
    assert!(matches!(task.next(now), WriterCommand::Close { .. }));
    task.closed();
    match task.next(now) {
        WriterCommand::Rename {
            inprogress,
            complete,
            rows,
        } => {
            assert_eq!(inprogress, format!("{complete}.inprogress"));
            assert_eq!(rows, 1);
        }
        other => panic!("unexpected {other:?}"),
    }
    task.renamed(&mut metrics);
    assert!(has(&metrics, "wattdog_parquet_active_file_open 0"));
    assert!(has(&metrics, "wattdog_parquet_rolls_total 1"));
    let directory = open(&mut task, &mut metrics, now);
    assert_eq!(directory, "/data/samples/date=2026-06-21/hour=13");
    assert!(matches!(task.next(now), WriterCommand::Await));
    assert_eq!(serials(&task), vec![2]);
}

#[test]
fn interval_in_the_next_window_opens_the_next_file() {
    let mut metrics = Metrics::new("test");
    let mut task = task();
    task.receive(sample(1), NOON);
    open(&mut task, &mut metrics, NOON);
    assert!(matches!(task.next(NOON), WriterCommand::Await));
    let now = after(7200);
    task.interval_elapsed(now);
    assert!(matches!(task.next(now), WriterCommand::Write));
    task.written(&mut metrics, now);
    assert!(matches!(task.next(now), WriterCommand::Close { .. }));
    task.closed();
    assert!(matches!(task.next(now), WriterCommand::Rename { .. }));
    task.renamed(&mut metrics);
    assert_eq!(
        open(&mut task, &mut metrics, now),
        "/data/samples/date=2026-06-21/hour=14"
    );
    assert!(matches!(task.next(now), WriterCommand::Await));
}

#[test]
fn rows_that_cannot_be_written_are_counted_and_dropped() {
    let mut metrics = Metrics::new("test");
    let mut task = task();
    task.receive(sample(1), NOON);
    open(&mut task, &mut metrics, NOON);
    assert!(matches!(task.next(NOON), WriterCommand::Await));
    task.interval_elapsed(NOON);
    assert!(matches!(task.next(NOON), WriterCommand::Write));
    task.write_failed(&mut metrics);
    assert!(matches!(task.next(NOON), WriterCommand::Await));
    assert!(task.batch().is_empty());
    assert!(has(&metrics, "wattdog_parquet_write_errors_total 1"));
    assert!(has(&metrics, "wattdog_parquet_rows_written_total 0"));
}

#[test]
fn finishing_writes_closes_and_renames() {
    let mut metrics = Metrics::new("test");
    let mut task = task();
    task.finish();
    assert!(matches!(task.next(NOON), WriterCommand::Await));

    task.receive(sample(1), NOON);
    open(&mut task, &mut metrics, NOON);
    assert!(matches!(task.next(NOON), WriterCommand::Await));
    task.finish();
    assert!(matches!(task.next(NOON), WriterCommand::Write));
    task.written(&mut metrics, NOON);
    assert!(matches!(task.next(NOON), WriterCommand::Close { .. }));
    task.closed();
    assert!(matches!(task.next(NOON), WriterCommand::Rename { .. }));
    task.renamed(&mut metrics);
    assert!(matches!(task.next(NOON), WriterCommand::Await));
    assert!(task.batch().is_empty());
}

#[test]
fn reports_on_other_operations_are_ignored() {
    let mut metrics = Metrics::new("test");
    let mut task = task();
    task.receive(sample(1), NOON);
    let before = metrics.encode().expect("metrics");
    task.written(&mut metrics, NOON);
    task.write_failed(&mut metrics);
    task.closed();
    task.renamed(&mut metrics);
    assert_eq!(metrics.encode().expect("metrics"), before);
    assert!(matches!(task.next(NOON), WriterCommand::Open { .. }));
}

#[test]
fn every_sample_leaves_in_order() {
    let mut metrics = Metrics::new("test");
    let mut task = task();
    let mut left: Vec<u64> = Vec::new();
    let mut received: Vec<u64> = Vec::new();
    for round in 0..3u64 {
        for serial in [2 * round, 2 * round + 1] {
            received.push(serial);
            task.receive(sample(serial), NOON);
            if received.len() == 1 {
                open(&mut task, &mut metrics, NOON);
            }
            assert!(matches!(task.next(NOON), WriterCommand::Await));
        }
        if round == 2 {
            task.finish();
        } else {
            task.interval_elapsed(NOON);
        }
        assert!(matches!(task.next(NOON), WriterCommand::Write));
        left.extend(serials(&task));
        if round == 1 {
            task.write_failed(&mut metrics);
        } else {
            task.written(&mut metrics, NOON);
        }
        let mut all = left.clone();
        all.extend(serials(&task));
        assert_eq!(all, received);
    }
    assert!(matches!(task.next(NOON), WriterCommand::Close { .. }));
    task.closed();
    match task.next(NOON) {
        WriterCommand::Rename { rows, .. } => assert_eq!(rows, 4),
        other => panic!("unexpected {other:?}"),
    }
    task.renamed(&mut metrics);
    assert!(matches!(task.next(NOON), WriterCommand::Await));
    assert_eq!(left, received);
    assert!(has(&metrics, "wattdog_parquet_rows_written_total 4"));
    assert!(has(&metrics, "wattdog_parquet_batches_written_total 2"));
    assert!(has(&metrics, "wattdog_parquet_write_errors_total 1"));
}

#[test]
fn calendar_covers_times_of_some_hundred_thousand_years() {
    assert!(NOON.is_valid());
    let at = |secs, nanos| UtcTime { secs, nanos }.is_valid();
    assert!(at(8_210_266_876_799, 1_999_999_999));
    assert!(!at(8_210_266_876_800, 0));
    assert!(at(-8_334_601_228_800, 0));
    assert!(!at(-8_334_601_228_801, 0));
    assert!(!at(0, 2_000_000_000));
}
