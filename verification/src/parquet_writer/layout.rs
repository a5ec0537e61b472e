//! What the table of samples holds, column by column.

use vstd::prelude::*;
use vstd::utf8::encode_utf8;

use crate::columns::{text_bytes, Cell, ColumnKind};
use crate::parquet_writer::table::{sample_schema, sample_table, texts_fit, TextField};
use crate::sample::Sample;

verus! {

/// An optional text as a value.
pub open spec fn text_or_null(text: Option<String>) -> Cell {
    if text is Some {
        Cell::Text(text->0@)
    } else {
        Cell::Null
    }
}

/// An optional number as a value.
pub open spec fn number_or_null(known: bool, number: int) -> Cell {
    if known {
        Cell::Integer(number)
    } else {
        Cell::Null
    }
}

/// Whether the column at `index` has this name and type, may lack values or not, and holds
/// this value in a row.
pub open spec fn holds(
    samples: Seq<Sample>,
    row: int,
    index: int,
    name: Seq<char>,
    kind: ColumnKind,
    nullable: bool,
    value: Cell,
) -> bool {
    &&& sample_schema()[index].name == name
    &&& sample_schema()[index].kind == Some(kind)
    &&& sample_schema()[index].nullable == nullable
    &&& sample_table(samples)[index].kind == kind
    &&& sample_table(samples)[index].cells.len() == samples.len()
    &&& sample_table(samples)[index].cells[row] == value
}

/// The table has thirty columns. Each has the name of the field of a sample that it holds,
/// the time of the observation being in milliseconds twice. Texts and the values derived
/// from raw ones may be missing, and are where the sample has none.
pub proof fn law_columns_hold_the_fields_they_are_named_after(samples: Seq<Sample>, row: int)
    requires
        0 <= row < samples.len(),
    ensures
        sample_schema().len() == 30,
        sample_table(samples).len() == 30,
        ({
            let sample = samples[row];
            let millis = sample.observed_at.secs * 1000 + sample.observed_at.nanos as int
                / 1_000_000;
            &&& holds(
                samples,
                row,
                0,
                "schema_version"@,
                ColumnKind::Int32,
                false,
                Cell::Integer(sample.schema_version as int),
            )
            &&& holds(
                samples,
                row,
                1,
                "observed_at_unix_ms"@,
                ColumnKind::Int64,
                false,
                Cell::Integer(millis),
            )
            &&& holds(
                samples,
                row,
                2,
                "observed_at_utc"@,
                ColumnKind::TimestampMillisUtc,
                false,
                Cell::Integer(millis),
            )
            &&& holds(
                samples,
                row,
                3,
                "serial"@,
                ColumnKind::UInt64,
                false,
                Cell::Integer(sample.serial as int),
            )
            &&& holds(
                samples,
                row,
                4,
                "address_raw"@,
                ColumnKind::UInt64,
                false,
                Cell::Integer(sample.address_raw as int),
            )
            &&& holds(
                samples,
                row,
                5,
                "address_display"@,
                ColumnKind::Utf8,
                true,
                text_or_null(sample.address_display),
            )
            &&& holds(
                samples,
                row,
                6,
                "address_kind"@,
                ColumnKind::Utf8,
                true,
                text_or_null(sample.address_kind),
            )
            &&& holds(
                samples,
                row,
                7,
                "name"@,
                ColumnKind::Utf8,
                true,
                text_or_null(sample.name),
            )
            &&& holds(
                samples,
                row,
                8,
                "model"@,
                ColumnKind::Utf8,
                true,
                text_or_null(sample.model),
            )
            &&& holds(
                samples,
                row,
                9,
                "firmware_version_bcd"@,
                ColumnKind::UInt16,
                false,
                Cell::Integer(sample.firmware_version_bcd as int),
            )
            &&& holds(
                samples,
                row,
                10,
                "firmware_version"@,
                ColumnKind::Utf8,
                true,
                text_or_null(sample.firmware_version),
            )
            &&& holds(
                samples,
                row,
                11,
                "hardware_revision_bcd"@,
                ColumnKind::UInt8,
                false,
                Cell::Integer(sample.hardware_revision_bcd as int),
            )
            &&& holds(
                samples,
                row,
                12,
                "hardware_revision"@,
                ColumnKind::Utf8,
                true,
                text_or_null(sample.hardware_revision),
            )
            &&& holds(
                samples,
                row,
                13,
                "device_time_raw"@,
                ColumnKind::UInt32,
                false,
                Cell::Integer(sample.device_time_raw as int),
            )
            &&& holds(
                samples,
                row,
                14,
                "flags_raw"@,
                ColumnKind::UInt32,
                false,
                Cell::Integer(sample.flags_raw as int),
            )
            &&& holds(
                samples,
                row,
                15,
                "voltage1_volts"@,
                ColumnKind::Float32,
                false,
                Cell::Number(sample.voltage1_volts),
            )
            &&& holds(
                samples,
                row,
                16,
                "voltage2_volts"@,
                ColumnKind::Float32,
                false,
                Cell::Number(sample.voltage2_volts),
            )
            &&& holds(
                samples,
                row,
                17,
                "current_amps"@,
                ColumnKind::Float32,
                false,
                Cell::Number(sample.current_amps),
            )
            &&& holds(
                samples,
                row,
                18,
                "power_watts"@,
                ColumnKind::Float32,
                false,
                Cell::Number(sample.power_watts),
            )
            &&& holds(
                samples,
                row,
                19,
                "coulomb_meter_raw"@,
                ColumnKind::Float32,
                false,
                Cell::Number(sample.coulomb_meter_raw),
            )
            &&& holds(
                samples,
                row,
                20,
                "power_meter_raw"@,
                ColumnKind::Float32,
                false,
                Cell::Number(sample.power_meter_raw),
            )
            &&& holds(
                samples,
                row,
                21,
                "temperature_celsius"@,
                ColumnKind::Float32,
                false,
                Cell::Number(sample.temperature_celsius),
            )
            &&& holds(
                samples,
                row,
                22,
                "temperature_is_external"@,
                ColumnKind::Boolean,
                false,
                Cell::Truth(sample.temperature_is_external),
            )
            &&& holds(
                samples,
                row,
                23,
                "power_status_code"@,
                ColumnKind::UInt8,
                false,
                Cell::Integer(sample.power_status_code as int),
            )
            &&& holds(
                samples,
                row,
                24,
                "power_status"@,
                ColumnKind::Utf8,
                true,
                text_or_null(sample.power_status),
            )
            &&& holds(
                samples,
                row,
                25,
                "soc_raw"@,
                ColumnKind::UInt8,
                false,
                Cell::Integer(sample.soc_raw as int),
            )
            &&& holds(
                samples,
                row,
                26,
                "soc_percent"@,
                ColumnKind::UInt8,
                true,
                number_or_null(sample.soc_percent is Some, sample.soc_percent->0 as int),
            )
            &&& holds(
                samples,
                row,
                27,
                "runtime_raw"@,
                ColumnKind::UInt16,
                false,
                Cell::Integer(sample.runtime_raw as int),
            )
            &&& holds(
                samples,
                row,
                28,
                "runtime_minutes"@,
                ColumnKind::UInt16,
                true,
                number_or_null(sample.runtime_minutes is Some, sample.runtime_minutes->0 as int),
            )
            &&& holds(
                samples,
                row,
                29,
                "rssi_dbm"@,
                ColumnKind::Int16,
                false,
                Cell::Integer(sample.rssi_dbm as int),
            )
        }),
{
    let sample = samples[row];
    lemma_text(sample.address_display);
    lemma_text(sample.address_kind);
    lemma_text(sample.name);
    lemma_text(sample.model);
    lemma_text(sample.firmware_version);
    lemma_text(sample.hardware_revision);
    lemma_text(sample.power_status);
}

proof fn lemma_text(text: Option<String>)
    ensures
        text is Some ==> text.deep_view() == Some(text->0@),
        text is None ==> text.deep_view() is None,
{
}

/// The bytes of texts add up, and missing texts have none.
pub proof fn law_text_bytes_add_up(texts: Seq<Option<Seq<char>>>, one: Option<Seq<char>>)
    ensures
        text_bytes(seq![]) == 0,
        one is None ==> text_bytes(texts.push(one)) == text_bytes(texts),
        one is Some ==> text_bytes(texts.push(one)) == text_bytes(texts) + encode_utf8(
            one->0,
        ).len(),
{
    assert(texts.push(one).drop_last() =~= texts);
}

/// Texts can be stored together if those of each of the seven text fields take up at most
/// 2147483647 bytes, and not if those of one take up more.
pub proof fn law_text_columns_are_bounded(samples: Seq<Sample>)
    ensures
        texts_fit(samples) <==> {
            &&& text_bytes(TextField::AddressDisplay.texts(samples)) <= 2147483647
            &&& text_bytes(TextField::AddressKind.texts(samples)) <= 2147483647
            &&& text_bytes(TextField::Name.texts(samples)) <= 2147483647
            &&& text_bytes(TextField::Model.texts(samples)) <= 2147483647
            &&& text_bytes(TextField::FirmwareVersion.texts(samples)) <= 2147483647
            &&& text_bytes(TextField::HardwareRevision.texts(samples)) <= 2147483647
            &&& text_bytes(TextField::PowerStatus.texts(samples)) <= 2147483647
        },
{
}

} // verus!
