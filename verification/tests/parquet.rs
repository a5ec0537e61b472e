use std::sync::Arc;

use arrow::array::{Array, Float32Array, StringArray, TimestampMillisecondArray, UInt8Array};
use arrow::datatypes::{DataType, Field, Schema, TimeUnit};
use wattdog::calendar::UtcTime;
use wattdog::config::RollPeriod;
use wattdog::float::Single;
use wattdog::parquet_writer::files::{
    partition_directory, roll_window_start, unique_file_paths, NoFreeName,
};
use wattdog::parquet_writer::table::{
    arrow_schema, samples_to_record_batch, text_columns_fit, BatchError,
};
use wattdog::sample::Sample;

fn utc(year: i32, month: u32, day: u32, hour: u32, minute: u32, second: u32) -> UtcTime {
    let time = chrono::NaiveDate::from_ymd_opt(year, month, day)
        .and_then(|date| date.and_hms_opt(hour, minute, second))
        .expect("valid time");
    UtcTime {
        secs: time.and_utc().timestamp(),
        nanos: 0,
    }
}

fn single(value: f32) -> Single {
    Single {
        bits: value.to_bits(),
    }
}

fn sample() -> Sample {
    Sample {
        schema_version: 1,
        observed_at: utc(2026, 6, 22, 14, 55, 0),
        serial: 239_148_418_773_806,
        address_raw: 0xAABB_CCDD_EEFF,
        address_display: Some("AA:BB:CC:DD:EE:FF".to_string()),
        address_kind: Some("ble_mac".to_string()),
        name: Some("PowerMon".to_string()),
        model: Some("PowerMon".to_string()),
        firmware_version_bcd: 0x0120,
        firmware_version: Some("01.20".to_string()),
        hardware_revision_bcd: 0x20,
        hardware_revision: Some("2.0".to_string()),
        device_time_raw: 0,
        flags_raw: 0,
        voltage1_volts: single(13.2),
        voltage2_volts: single(0.0),
        current_amps: single(1.5),
        power_watts: single(19.8),
        coulomb_meter_raw: single(0.0),
        power_meter_raw: single(0.0),
        temperature_celsius: single(25.0),
        temperature_is_external: false,
        power_status_code: 1,
        power_status: Some("On".to_string()),
        soc_raw: 80,
        soc_percent: Some(80),
        runtime_raw: 120,
        runtime_minutes: Some(120),
        rssi_dbm: -60,
    }
}

#[test]
fn creates_hourly_partition_paths() {
    let start = roll_window_start(utc(2026, 6, 21, 14, 23, 59), RollPeriod::Hourly);
    let path = partition_directory("/data", RollPeriod::Hourly, start);
    assert_eq!(path, "/data/samples/date=2026-06-21/hour=14");
}

#[test]
fn creates_daily_partition_paths() {
    let start = roll_window_start(utc(2026, 6, 21, 14, 23, 59), RollPeriod::Daily);
    let path = partition_directory("/data", RollPeriod::Daily, start);
    assert_eq!(path, "/data/samples/date=2026-06-21");
}

#[test]
fn sample_record_batch_matches_timestamp_schema() {
    let schema = arrow_schema();
    let batch = samples_to_record_batch(&[sample()], Arc::clone(&schema))
        .expect("sample should convert to a record batch");

    assert_eq!(
        batch.batch.schema().field(2).data_type(),
        schema.field(2).data_type()
    );
}

#[test]
fn schema_is_stable() {
    let schema = arrow_schema();
    let expected = [
        ("schema_version", DataType::Int32, false),
        ("observed_at_unix_ms", DataType::Int64, false),
        (
            "observed_at_utc",
            DataType::Timestamp(TimeUnit::Millisecond, Some("UTC".into())),
            false,
        ),
        ("serial", DataType::UInt64, false),
        ("address_raw", DataType::UInt64, false),
        ("address_display", DataType::Utf8, true),
        ("address_kind", DataType::Utf8, true),
        ("name", DataType::Utf8, true),
        ("model", DataType::Utf8, true),
        ("firmware_version_bcd", DataType::UInt16, false),
        ("firmware_version", DataType::Utf8, true),
        ("hardware_revision_bcd", DataType::UInt8, false),
        ("hardware_revision", DataType::Utf8, true),
        ("device_time_raw", DataType::UInt32, false),
        ("flags_raw", DataType::UInt32, false),
        ("voltage1_volts", DataType::Float32, false),
        ("voltage2_volts", DataType::Float32, false),
        ("current_amps", DataType::Float32, false),
        ("power_watts", DataType::Float32, false),
        ("coulomb_meter_raw", DataType::Float32, false),
        ("power_meter_raw", DataType::Float32, false),
        ("temperature_celsius", DataType::Float32, false),
        ("temperature_is_external", DataType::Boolean, false),
        ("power_status_code", DataType::UInt8, false),
        ("power_status", DataType::Utf8, true),
        ("soc_raw", DataType::UInt8, false),
        ("soc_percent", DataType::UInt8, true),
        ("runtime_raw", DataType::UInt16, false),
        ("runtime_minutes", DataType::UInt16, true),
        ("rssi_dbm", DataType::Int16, false),
    ];
    assert_eq!(schema.fields().len(), expected.len());
    for (field, (name, data_type, nullable)) in schema.fields().iter().zip(expected) {
        assert_eq!(field.name(), name);
        assert_eq!(field.data_type(), &data_type, "{name}");
        assert_eq!(field.is_nullable(), nullable, "{name}");
    }
}

#[test]
fn rows_hold_the_values_of_their_samples() {
    let mut second = sample();
    second.observed_at = UtcTime {
        secs: -1,
        nanos: 999_000_000,
    };
    second.name = None;
    second.soc_percent = None;
    second.voltage1_volts = single(f32::NEG_INFINITY);
    let batch = samples_to_record_batch(&[sample(), second], arrow_schema())
        .expect("batch")
        .batch;
    assert_eq!(batch.num_rows(), 2);
    let times: &TimestampMillisecondArray = batch.column(2).as_any().downcast_ref().expect("times");
    assert_eq!(times.value(0), 1_782_140_100_000);
    assert_eq!(times.value(1), -1);
    let names: &StringArray = batch.column(7).as_any().downcast_ref().expect("names");
    assert_eq!(names.value(0), "PowerMon");
    assert!(names.is_null(1));
    let volts: &Float32Array = batch.column(15).as_any().downcast_ref().expect("volts");
    assert_eq!(volts.value(0), 13.2);
    assert_eq!(volts.value(1), f32::NEG_INFINITY);
    let percents: &UInt8Array = batch.column(26).as_any().downcast_ref().expect("percents");
    assert_eq!(percents.value(0), 80);
    assert!(percents.is_null(1));
    let text = format!("{batch:?}");
    for value in ["239148418773806", "01.20", "19.8", "-60"] {
        assert!(text.contains(value), "{value}");
    }
}

#[test]
fn every_column_holds_its_own_field() {
    let mut distinct = sample();
    distinct.schema_version = 101;
    distinct.serial = 102;
    distinct.address_raw = 103;
    distinct.address_display = Some("t104".to_string());
    distinct.address_kind = Some("t105".to_string());
    distinct.name = Some("t106".to_string());
    distinct.model = Some("t107".to_string());
    distinct.firmware_version_bcd = 108;
    distinct.firmware_version = Some("t109".to_string());
    distinct.hardware_revision_bcd = 110;
    distinct.hardware_revision = Some("t111".to_string());
    distinct.device_time_raw = 112;
    distinct.flags_raw = 113;
    distinct.voltage1_volts = single(114.5);
    distinct.voltage2_volts = single(115.5);
    distinct.current_amps = single(116.5);
    distinct.power_watts = single(117.5);
    distinct.coulomb_meter_raw = single(118.5);
    distinct.power_meter_raw = single(119.5);
    distinct.temperature_celsius = single(120.5);
    distinct.temperature_is_external = true;
    distinct.power_status_code = 121;
    distinct.power_status = Some("t122".to_string());
    distinct.soc_raw = 123;
    distinct.soc_percent = Some(124);
    distinct.runtime_raw = 125;
    distinct.runtime_minutes = Some(126);
    distinct.rssi_dbm = 127;
    let batch = samples_to_record_batch(&[distinct], arrow_schema())
        .expect("batch")
        .batch;
    let expected = [
        "101",
        "1782140100000",
        "2026-06-22",
        "102",
        "103",
        "t104",
        "t105",
        "t106",
        "t107",
        "108",
        "t109",
        "110",
        "t111",
        "112",
        "113",
        "114.5",
        "115.5",
        "116.5",
        "117.5",
        "118.5",
        "119.5",
        "120.5",
        "true",
        "121",
        "t122",
        "123",
        "124",
        "125",
        "126",
        "127",
    ];
    for (column, value) in batch.columns().iter().zip(expected) {
        let text = format!("{column:?}");
        assert!(text.contains(value), "{value} in {text}");
    }
}

#[test]
fn a_batch_may_be_empty() {
    let batch = samples_to_record_batch(&[], arrow_schema()).expect("batch");
    assert_eq!(batch.batch.num_rows(), 0);
    assert!(text_columns_fit(&[]));
    assert!(text_columns_fit(&[sample()]));
}

#[test]
fn another_schema_is_refused() {
    let short = Arc::new(Schema::new(vec![Field::new(
        "schema_version",
        DataType::Int32,
        false,
    )]));
    assert_eq!(
        samples_to_record_batch(&[sample()], short).err(),
        Some(BatchError)
    );
    let mut fields: Vec<Field> = arrow_schema()
        .fields()
        .iter()
        .map(|field| field.as_ref().clone())
        .collect();
    fields[7] = Field::new("name", DataType::Utf8, false);
    let strict = Arc::new(Schema::new(fields));
    assert!(samples_to_record_batch(&[sample()], Arc::clone(&strict)).is_ok());
    let mut unnamed = sample();
    unnamed.name = None;
    assert_eq!(
        samples_to_record_batch(&[unnamed], strict).err(),
        Some(BatchError)
    );
}

#[test]
fn windows_start_on_the_hour_and_at_midnight() {
    let late = UtcTime {
        secs: utc(1969, 12, 31, 23, 59, 59).secs,
        nanos: 5,
    };
    assert_eq!(
        roll_window_start(late, RollPeriod::Hourly),
        utc(1969, 12, 31, 23, 0, 0)
    );
    assert_eq!(
        roll_window_start(late, RollPeriod::Daily),
        utc(1969, 12, 31, 0, 0, 0)
    );
}

#[test]
fn directories_are_joined_like_paths() {
    let start = utc(2026, 1, 2, 3, 0, 0);
    for data_dir in ["", "data", "/data", "/data/", "/"] {
        let expected = std::path::Path::new(data_dir)
            .join("samples")
            .join("date=2026-01-02")
            .join("hour=03");
        assert_eq!(
            partition_directory(data_dir, RollPeriod::Hourly, start),
            expected.to_str().expect("text")
        );
    }
}

#[test]
fn unusual_years_are_written_as_chrono_does() {
    for year in [-12_345, -5, 0, 7, 999, 9_999, 10_000, 262_142] {
        let start = utc(year, 3, 4, 0, 0, 0);
        let paths =
            unique_file_paths("d", RollPeriod::Daily, start, &Vec::new()).expect("free name");
        let stamp = chrono::NaiveDate::from_ymd_opt(year, 3, 4)
            .expect("date")
            .format("%Y%m%d")
            .to_string();
        assert_eq!(paths.complete, format!("d/part-{stamp}.parquet"));
        assert_eq!(
            partition_directory("", RollPeriod::Daily, start),
            format!("samples/date={year:04}-03-04")
        );
    }
}

#[test]
fn file_names_take_the_first_free_number() {
    let start = utc(2026, 6, 21, 14, 0, 0);
    let name = |existing: Vec<&str>| {
        let existing: Vec<String> = existing.into_iter().map(str::to_string).collect();
        unique_file_paths("/d", RollPeriod::Hourly, start, &existing)
            .map(|paths| (paths.inprogress, paths.complete))
    };
    let pair = |stem: &str| {
        Ok((
            format!("/d/{stem}.parquet.inprogress"),
            format!("/d/{stem}.parquet"),
        ))
    };
    assert_eq!(name(vec![]), pair("part-20260621T140000Z"));
    assert_eq!(
        name(vec!["part-20260621T140000Z.parquet"]),
        pair("part-20260621T140000Z-001")
    );
    assert_eq!(
        name(vec![
            "part-20260621T140000Z-001.parquet",
            "part-20260621T140000Z.parquet.inprogress",
            "unrelated",
        ]),
        pair("part-20260621T140000Z-002")
    );
}

#[test]
fn a_thousand_files_exhaust_a_window() {
    let start = utc(2026, 6, 21, 0, 0, 0);
    let mut existing = vec!["part-20260621.parquet".to_string()];
    for index in 1..999 {
        existing.push(format!("part-20260621-{index:03}.parquet"));
    }
    let last = unique_file_paths("/d", RollPeriod::Daily, start, &existing).expect("one left");
    assert_eq!(last.complete, "/d/part-20260621-999.parquet");
    existing.push("part-20260621-999.parquet.inprogress".to_string());
    assert_eq!(
        unique_file_paths("/d", RollPeriod::Daily, start, &existing).err(),
        Some(NoFreeName)
    );
}
