//! The table that samples are stored in: its schema and its rows.

use std::sync::Arc;

use arrow::datatypes::{Field, Schema};
use vstd::prelude::*;

use crate::columns::{
    batch_columns, batch_schema, boolean_column, column_data, column_fits, columns_data,
    columns_fit, field_column, int16_column, int32_column, int64_column, new_field,
    new_record_batch, new_schema, schema_columns, shown_texts, single_column, text_bytes,
    text_cell, text_column, timestamp_column, uint16_cell, uint16_column, uint32_column,
    uint64_column, uint8_cell, uint8_column, Cell, Column, ColumnData, ColumnKind, SchemaColumn,
    TableBatch,
};
use crate::float::Single;
use crate::sample::Sample;

verus! {

/// The columns of the table.
#[derive(Clone, Copy, Debug, PartialEq, Eq, Structural)]
pub enum SampleColumn {
    /// `schema_version`.
    SchemaVersion,
    /// `observed_at_unix_ms`.
    ObservedAtUnixMs,
    /// `observed_at_utc`.
    ObservedAtUtc,
    /// `serial`.
    Serial,
    /// `address_raw`.
    AddressRaw,
    /// `address_display`.
    AddressDisplay,
    /// `address_kind`.
    AddressKind,
    /// `name`.
    Name,
    /// `model`.
    Model,
    /// `firmware_version_bcd`.
    FirmwareVersionBcd,
    /// `firmware_version`.
    FirmwareVersion,
    /// `hardware_revision_bcd`.
    HardwareRevisionBcd,
    /// `hardware_revision`.
    HardwareRevision,
    /// `device_time_raw`.
    DeviceTimeRaw,
    /// `flags_raw`.
    FlagsRaw,
    /// `voltage1_volts`.
    Voltage1Volts,
    /// `voltage2_volts`.
    Voltage2Volts,
    /// `current_amps`.
    CurrentAmps,
    /// `power_watts`.
    PowerWatts,
    /// `coulomb_meter_raw`.
    CoulombMeterRaw,
    /// `power_meter_raw`.
    PowerMeterRaw,
    /// `temperature_celsius`.
    TemperatureCelsius,
    /// `temperature_is_external`.
    TemperatureIsExternal,
    /// `power_status_code`.
    PowerStatusCode,
    /// `power_status`.
    PowerStatus,
    /// `soc_raw`.
    SocRaw,
    /// `soc_percent`.
    SocPercent,
    /// `runtime_raw`.
    RuntimeRaw,
    /// `runtime_minutes`.
    RuntimeMinutes,
    /// `rssi_dbm`.
    RssiDbm,
}

/// The fields of a sample that are texts.
#[derive(Clone, Copy, Debug, PartialEq, Eq, Structural)]
pub enum TextField {
    /// Display address.
    AddressDisplay,
    /// Kind of address.
    AddressKind,
    /// Device name.
    Name,
    /// Hardware model.
    Model,
    /// Firmware version.
    FirmwareVersion,
    /// Hardware revision.
    HardwareRevision,
    /// Power status.
    PowerStatus,
}

/// Arrow refused the columns for a schema.
#[derive(Clone, Copy, Debug, PartialEq, Eq, Structural)]
pub struct BatchError;

/// The milliseconds from the start of 1970 to the observation of a sample.
pub open spec fn observed_millis(sample: Sample) -> int {
    sample.observed_at.secs * 1000 + sample.observed_at.nanos as int / 1_000_000
}

impl TextField {
    /// The text of this field.
    pub open spec fn text(self, sample: Sample) -> Option<Seq<char>> {
        match self {
            TextField::AddressDisplay => sample.address_display.deep_view(),
            TextField::AddressKind => sample.address_kind.deep_view(),
            TextField::Name => sample.name.deep_view(),
            TextField::Model => sample.model.deep_view(),
            TextField::FirmwareVersion => sample.firmware_version.deep_view(),
            TextField::HardwareRevision => sample.hardware_revision.deep_view(),
            TextField::PowerStatus => sample.power_status.deep_view(),
        }
    }

    /// The texts of this field in some samples.
    pub open spec fn texts(self, samples: Seq<Sample>) -> Seq<Option<Seq<char>>> {
        Seq::new(samples.len(), |i: int| self.text(samples[i]))
    }

    fn value(self, sample: &Sample) -> (text: Option<&str>)
        ensures
            match text {
                Some(text) => self.text(*sample) == Some(text@),
                None => self.text(*sample) is None,
            },
    {
        let text: &Option<String> = match self {
            TextField::AddressDisplay => &sample.address_display,
            TextField::AddressKind => &sample.address_kind,
            TextField::Name => &sample.name,
            TextField::Model => &sample.model,
            TextField::FirmwareVersion => &sample.firmware_version,
            TextField::HardwareRevision => &sample.hardware_revision,
            TextField::PowerStatus => &sample.power_status,
        };
        match text {
            Some(text) => Some(text.as_str()),
            None => None,
        }
    }
}

/// Whether the texts of each field can be stored together: Arrow counts their bytes in
/// 32 bits.
pub open spec fn texts_fit(samples: Seq<Sample>) -> bool {
    forall|field: TextField| text_bytes(#[trigger] field.texts(samples)) <= i32::MAX
}

/// Whether every sample was observed at a time that the calendar covers.
pub open spec fn times_valid(samples: Seq<Sample>) -> bool {
    forall|i: int| 0 <= i < samples.len() ==> (#[trigger] samples[i]).observed_at.valid()
}

impl SampleColumn {
    /// Every column, in order.
    pub open spec fn every() -> Seq<SampleColumn> {
        seq![
            SampleColumn::SchemaVersion,
            SampleColumn::ObservedAtUnixMs,
            SampleColumn::ObservedAtUtc,
            SampleColumn::Serial,
            SampleColumn::AddressRaw,
            SampleColumn::AddressDisplay,
            SampleColumn::AddressKind,
            SampleColumn::Name,
            SampleColumn::Model,
            SampleColumn::FirmwareVersionBcd,
            SampleColumn::FirmwareVersion,
            SampleColumn::HardwareRevisionBcd,
            SampleColumn::HardwareRevision,
            SampleColumn::DeviceTimeRaw,
            SampleColumn::FlagsRaw,
            SampleColumn::Voltage1Volts,
            SampleColumn::Voltage2Volts,
            SampleColumn::CurrentAmps,
            SampleColumn::PowerWatts,
            SampleColumn::CoulombMeterRaw,
            SampleColumn::PowerMeterRaw,
            SampleColumn::TemperatureCelsius,
            SampleColumn::TemperatureIsExternal,
            SampleColumn::PowerStatusCode,
            SampleColumn::PowerStatus,
            SampleColumn::SocRaw,
            SampleColumn::SocPercent,
            SampleColumn::RuntimeRaw,
            SampleColumn::RuntimeMinutes,
            SampleColumn::RssiDbm,
        ]
    }

    /// The name of the column.
    pub open spec fn label(self) -> Seq<char> {
        match self {
            SampleColumn::SchemaVersion => "schema_version"@,
            SampleColumn::ObservedAtUnixMs => "observed_at_unix_ms"@,
            SampleColumn::ObservedAtUtc => "observed_at_utc"@,
            SampleColumn::Serial => "serial"@,
            SampleColumn::AddressRaw => "address_raw"@,
            SampleColumn::AddressDisplay => "address_display"@,
            SampleColumn::AddressKind => "address_kind"@,
            SampleColumn::Name => "name"@,
            SampleColumn::Model => "model"@,
            SampleColumn::FirmwareVersionBcd => "firmware_version_bcd"@,
            SampleColumn::FirmwareVersion => "firmware_version"@,
            SampleColumn::HardwareRevisionBcd => "hardware_revision_bcd"@,
            SampleColumn::HardwareRevision => "hardware_revision"@,
            SampleColumn::DeviceTimeRaw => "device_time_raw"@,
            SampleColumn::FlagsRaw => "flags_raw"@,
            SampleColumn::Voltage1Volts => "voltage1_volts"@,
            SampleColumn::Voltage2Volts => "voltage2_volts"@,
            SampleColumn::CurrentAmps => "current_amps"@,
            SampleColumn::PowerWatts => "power_watts"@,
            SampleColumn::CoulombMeterRaw => "coulomb_meter_raw"@,
            SampleColumn::PowerMeterRaw => "power_meter_raw"@,
            SampleColumn::TemperatureCelsius => "temperature_celsius"@,
            SampleColumn::TemperatureIsExternal => "temperature_is_external"@,
            SampleColumn::PowerStatusCode => "power_status_code"@,
            SampleColumn::PowerStatus => "power_status"@,
            SampleColumn::SocRaw => "soc_raw"@,
            SampleColumn::SocPercent => "soc_percent"@,
            SampleColumn::RuntimeRaw => "runtime_raw"@,
            SampleColumn::RuntimeMinutes => "runtime_minutes"@,
            SampleColumn::RssiDbm => "rssi_dbm"@,
        }
    }

    /// The type of the column.
    pub open spec fn kind_of(self) -> ColumnKind {
        match self {
            SampleColumn::SchemaVersion => ColumnKind::Int32,
            SampleColumn::ObservedAtUnixMs => ColumnKind::Int64,
            SampleColumn::ObservedAtUtc => ColumnKind::TimestampMillisUtc,
            SampleColumn::Serial => ColumnKind::UInt64,
            SampleColumn::AddressRaw => ColumnKind::UInt64,
            SampleColumn::AddressDisplay => ColumnKind::Utf8,
            SampleColumn::AddressKind => ColumnKind::Utf8,
            SampleColumn::Name => ColumnKind::Utf8,
            SampleColumn::Model => ColumnKind::Utf8,
            SampleColumn::FirmwareVersionBcd => ColumnKind::UInt16,
            SampleColumn::FirmwareVersion => ColumnKind::Utf8,
            SampleColumn::HardwareRevisionBcd => ColumnKind::UInt8,
            SampleColumn::HardwareRevision => ColumnKind::Utf8,
            SampleColumn::DeviceTimeRaw => ColumnKind::UInt32,
            SampleColumn::FlagsRaw => ColumnKind::UInt32,
            SampleColumn::Voltage1Volts => ColumnKind::Float32,
            SampleColumn::Voltage2Volts => ColumnKind::Float32,
            SampleColumn::CurrentAmps => ColumnKind::Float32,
            SampleColumn::PowerWatts => ColumnKind::Float32,
            SampleColumn::CoulombMeterRaw => ColumnKind::Float32,
            SampleColumn::PowerMeterRaw => ColumnKind::Float32,
            SampleColumn::TemperatureCelsius => ColumnKind::Float32,
            SampleColumn::TemperatureIsExternal => ColumnKind::Boolean,
            SampleColumn::PowerStatusCode => ColumnKind::UInt8,
            SampleColumn::PowerStatus => ColumnKind::Utf8,
            SampleColumn::SocRaw => ColumnKind::UInt8,
            SampleColumn::SocPercent => ColumnKind::UInt8,
            SampleColumn::RuntimeRaw => ColumnKind::UInt16,
            SampleColumn::RuntimeMinutes => ColumnKind::UInt16,
            SampleColumn::RssiDbm => ColumnKind::Int16,
        }
    }

    /// Whether values of the column may be missing: those are the texts and the values
    /// that are derived from raw ones.
    pub open spec fn may_be_null(self) -> bool {
        match self {
            SampleColumn::SchemaVersion => false,
            SampleColumn::ObservedAtUnixMs => false,
            SampleColumn::ObservedAtUtc => false,
            SampleColumn::Serial => false,
            SampleColumn::AddressRaw => false,
            SampleColumn::AddressDisplay => true,
            SampleColumn::AddressKind => true,
            SampleColumn::Name => true,
            SampleColumn::Model => true,
            SampleColumn::FirmwareVersionBcd => false,
            SampleColumn::FirmwareVersion => true,
            SampleColumn::HardwareRevisionBcd => false,
            SampleColumn::HardwareRevision => true,
            SampleColumn::DeviceTimeRaw => false,
            SampleColumn::FlagsRaw => false,
            SampleColumn::Voltage1Volts => false,
            SampleColumn::Voltage2Volts => false,
            SampleColumn::CurrentAmps => false,
            SampleColumn::PowerWatts => false,
            SampleColumn::CoulombMeterRaw => false,
            SampleColumn::PowerMeterRaw => false,
            SampleColumn::TemperatureCelsius => false,
            SampleColumn::TemperatureIsExternal => false,
            SampleColumn::PowerStatusCode => false,
            SampleColumn::PowerStatus => true,
            SampleColumn::SocRaw => false,
            SampleColumn::SocPercent => true,
            SampleColumn::RuntimeRaw => false,
            SampleColumn::RuntimeMinutes => true,
            SampleColumn::RssiDbm => false,
        }
    }

    /// The value of the column for one sample.
    pub open spec fn cell(self, sample: Sample) -> Cell {
        match self {
            SampleColumn::SchemaVersion => Cell::Integer(sample.schema_version as int),
            SampleColumn::ObservedAtUnixMs => Cell::Integer(observed_millis(sample)),
            SampleColumn::ObservedAtUtc => Cell::Integer(observed_millis(sample)),
            SampleColumn::Serial => Cell::Integer(sample.serial as int),
            SampleColumn::AddressRaw => Cell::Integer(sample.address_raw as int),
            SampleColumn::AddressDisplay => text_cell(TextField::AddressDisplay.text(sample)),
            SampleColumn::AddressKind => text_cell(TextField::AddressKind.text(sample)),
            SampleColumn::Name => text_cell(TextField::Name.text(sample)),
            SampleColumn::Model => text_cell(TextField::Model.text(sample)),
            SampleColumn::FirmwareVersionBcd => Cell::Integer(sample.firmware_version_bcd as int),
            SampleColumn::FirmwareVersion => text_cell(TextField::FirmwareVersion.text(sample)),
            SampleColumn::HardwareRevisionBcd => Cell::Integer(sample.hardware_revision_bcd as int),
            SampleColumn::HardwareRevision => text_cell(TextField::HardwareRevision.text(sample)),
            SampleColumn::DeviceTimeRaw => Cell::Integer(sample.device_time_raw as int),
            SampleColumn::FlagsRaw => Cell::Integer(sample.flags_raw as int),
            SampleColumn::Voltage1Volts => Cell::Number(sample.voltage1_volts),
            SampleColumn::Voltage2Volts => Cell::Number(sample.voltage2_volts),
            SampleColumn::CurrentAmps => Cell::Number(sample.current_amps),
            SampleColumn::PowerWatts => Cell::Number(sample.power_watts),
            SampleColumn::CoulombMeterRaw => Cell::Number(sample.coulomb_meter_raw),
            SampleColumn::PowerMeterRaw => Cell::Number(sample.power_meter_raw),
            SampleColumn::TemperatureCelsius => Cell::Number(sample.temperature_celsius),
            SampleColumn::TemperatureIsExternal => Cell::Truth(sample.temperature_is_external),
            SampleColumn::PowerStatusCode => Cell::Integer(sample.power_status_code as int),
            SampleColumn::PowerStatus => text_cell(TextField::PowerStatus.text(sample)),
            SampleColumn::SocRaw => Cell::Integer(sample.soc_raw as int),
            SampleColumn::SocPercent => uint8_cell(sample.soc_percent),
            SampleColumn::RuntimeRaw => Cell::Integer(sample.runtime_raw as int),
            SampleColumn::RuntimeMinutes => uint16_cell(sample.runtime_minutes),
            SampleColumn::RssiDbm => Cell::Integer(sample.rssi_dbm as int),
        }
    }

    /// The column for some samples: one row for each, in their order.
    pub open spec fn data(self, samples: Seq<Sample>) -> ColumnData {
        ColumnData {
            kind: self.kind_of(),
            cells: Seq::new(samples.len(), |i: int| self.cell(samples[i])),
        }
    }

    /// What a schema says of the column.
    pub open spec fn declaration(self) -> SchemaColumn {
        SchemaColumn {
            name: self.label(),
            kind: Some(self.kind_of()),
            nullable: self.may_be_null(),
        }
    }

    /// Returns every column, in order.
    pub fn all() -> (all: Vec<SampleColumn>)
        ensures
            all@ == SampleColumn::every(),
    {
        let mut all: Vec<SampleColumn> = Vec::new();
        all.push(SampleColumn::SchemaVersion);
        all.push(SampleColumn::ObservedAtUnixMs);
        all.push(SampleColumn::ObservedAtUtc);
        all.push(SampleColumn::Serial);
        all.push(SampleColumn::AddressRaw);
        all.push(SampleColumn::AddressDisplay);
        all.push(SampleColumn::AddressKind);
        all.push(SampleColumn::Name);
        all.push(SampleColumn::Model);
        all.push(SampleColumn::FirmwareVersionBcd);
        all.push(SampleColumn::FirmwareVersion);
        all.push(SampleColumn::HardwareRevisionBcd);
        all.push(SampleColumn::HardwareRevision);
        all.push(SampleColumn::DeviceTimeRaw);
        all.push(SampleColumn::FlagsRaw);
        all.push(SampleColumn::Voltage1Volts);
        all.push(SampleColumn::Voltage2Volts);
        all.push(SampleColumn::CurrentAmps);
        all.push(SampleColumn::PowerWatts);
        all.push(SampleColumn::CoulombMeterRaw);
        all.push(SampleColumn::PowerMeterRaw);
        all.push(SampleColumn::TemperatureCelsius);
        all.push(SampleColumn::TemperatureIsExternal);
        all.push(SampleColumn::PowerStatusCode);
        all.push(SampleColumn::PowerStatus);
        all.push(SampleColumn::SocRaw);
        all.push(SampleColumn::SocPercent);
        all.push(SampleColumn::RuntimeRaw);
        all.push(SampleColumn::RuntimeMinutes);
        all.push(SampleColumn::RssiDbm);
        all
    }

    /// Returns the name of the column.
    pub fn name(self) -> (name: &'static str)
        ensures
            name@ == self.label(),
    {
        match self {
            SampleColumn::SchemaVersion => "schema_version",
            SampleColumn::ObservedAtUnixMs => "observed_at_unix_ms",
            SampleColumn::ObservedAtUtc => "observed_at_utc",
            SampleColumn::Serial => "serial",
            SampleColumn::AddressRaw => "address_raw",
            SampleColumn::AddressDisplay => "address_display",
            SampleColumn::AddressKind => "address_kind",
            SampleColumn::Name => "name",
            SampleColumn::Model => "model",
            SampleColumn::FirmwareVersionBcd => "firmware_version_bcd",
            SampleColumn::FirmwareVersion => "firmware_version",
            SampleColumn::HardwareRevisionBcd => "hardware_revision_bcd",
            SampleColumn::HardwareRevision => "hardware_revision",
            SampleColumn::DeviceTimeRaw => "device_time_raw",
            SampleColumn::FlagsRaw => "flags_raw",
            SampleColumn::Voltage1Volts => "voltage1_volts",
            SampleColumn::Voltage2Volts => "voltage2_volts",
            SampleColumn::CurrentAmps => "current_amps",
            SampleColumn::PowerWatts => "power_watts",
            SampleColumn::CoulombMeterRaw => "coulomb_meter_raw",
            SampleColumn::PowerMeterRaw => "power_meter_raw",
            SampleColumn::TemperatureCelsius => "temperature_celsius",
            SampleColumn::TemperatureIsExternal => "temperature_is_external",
            SampleColumn::PowerStatusCode => "power_status_code",
            SampleColumn::PowerStatus => "power_status",
            SampleColumn::SocRaw => "soc_raw",
            SampleColumn::SocPercent => "soc_percent",
            SampleColumn::RuntimeRaw => "runtime_raw",
            SampleColumn::RuntimeMinutes => "runtime_minutes",
            SampleColumn::RssiDbm => "rssi_dbm",
        }
    }

    /// Returns the type of the column.
    pub fn kind(self) -> (kind: ColumnKind)
        ensures
            kind == self.kind_of(),
    {
        match self {
            SampleColumn::SchemaVersion => ColumnKind::Int32,
            SampleColumn::ObservedAtUnixMs => ColumnKind::Int64,
            SampleColumn::ObservedAtUtc => ColumnKind::TimestampMillisUtc,
            SampleColumn::Serial => ColumnKind::UInt64,
            SampleColumn::AddressRaw => ColumnKind::UInt64,
            SampleColumn::AddressDisplay => ColumnKind::Utf8,
            SampleColumn::AddressKind => ColumnKind::Utf8,
            SampleColumn::Name => ColumnKind::Utf8,
            SampleColumn::Model => ColumnKind::Utf8,
            SampleColumn::FirmwareVersionBcd => ColumnKind::UInt16,
            SampleColumn::FirmwareVersion => ColumnKind::Utf8,
            SampleColumn::HardwareRevisionBcd => ColumnKind::UInt8,
            SampleColumn::HardwareRevision => ColumnKind::Utf8,
            SampleColumn::DeviceTimeRaw => ColumnKind::UInt32,
            SampleColumn::FlagsRaw => ColumnKind::UInt32,
            SampleColumn::Voltage1Volts => ColumnKind::Float32,
            SampleColumn::Voltage2Volts => ColumnKind::Float32,
            SampleColumn::CurrentAmps => ColumnKind::Float32,
            SampleColumn::PowerWatts => ColumnKind::Float32,
            SampleColumn::CoulombMeterRaw => ColumnKind::Float32,
            SampleColumn::PowerMeterRaw => ColumnKind::Float32,
            SampleColumn::TemperatureCelsius => ColumnKind::Float32,
            SampleColumn::TemperatureIsExternal => ColumnKind::Boolean,
            SampleColumn::PowerStatusCode => ColumnKind::UInt8,
            SampleColumn::PowerStatus => ColumnKind::Utf8,
            SampleColumn::SocRaw => ColumnKind::UInt8,
            SampleColumn::SocPercent => ColumnKind::UInt8,
            SampleColumn::RuntimeRaw => ColumnKind::UInt16,
            SampleColumn::RuntimeMinutes => ColumnKind::UInt16,
            SampleColumn::RssiDbm => ColumnKind::Int16,
        }
    }

    /// Returns whether values of the column may be missing.
    pub fn nullable(self) -> (answer: bool)
        ensures
            answer == self.may_be_null(),
    {
        match self {
            SampleColumn::SchemaVersion => false,
            SampleColumn::ObservedAtUnixMs => false,
            SampleColumn::ObservedAtUtc => false,
            SampleColumn::Serial => false,
            SampleColumn::AddressRaw => false,
            SampleColumn::AddressDisplay => true,
            SampleColumn::AddressKind => true,
            SampleColumn::Name => true,
            SampleColumn::Model => true,
            SampleColumn::FirmwareVersionBcd => false,
            SampleColumn::FirmwareVersion => true,
            SampleColumn::HardwareRevisionBcd => false,
            SampleColumn::HardwareRevision => true,
            SampleColumn::DeviceTimeRaw => false,
            SampleColumn::FlagsRaw => false,
            SampleColumn::Voltage1Volts => false,
            SampleColumn::Voltage2Volts => false,
            SampleColumn::CurrentAmps => false,
            SampleColumn::PowerWatts => false,
            SampleColumn::CoulombMeterRaw => false,
            SampleColumn::PowerMeterRaw => false,
            SampleColumn::TemperatureCelsius => false,
            SampleColumn::TemperatureIsExternal => false,
            SampleColumn::PowerStatusCode => false,
            SampleColumn::PowerStatus => true,
            SampleColumn::SocRaw => false,
            SampleColumn::SocPercent => true,
            SampleColumn::RuntimeRaw => false,
            SampleColumn::RuntimeMinutes => true,
            SampleColumn::RssiDbm => false,
        }
    }

    /// Collects the values of the column.
    fn collect(self, samples: &[Sample]) -> (column: Column)
        requires
            texts_fit(samples@),
            times_valid(samples@),
        ensures
            column_data(column) == self.data(samples@),
    {
        match self.kind() {
            ColumnKind::Int32 => self.collect_int32(samples),
            ColumnKind::Int64 => self.collect_int64(samples),
            ColumnKind::TimestampMillisUtc => self.collect_timestamp(samples),
            ColumnKind::UInt64 => self.collect_uint64(samples),
            ColumnKind::UInt16 => self.collect_uint16(samples),
            ColumnKind::UInt8 => self.collect_uint8(samples),
            ColumnKind::UInt32 => self.collect_uint32(samples),
            ColumnKind::Float32 => self.collect_single(samples),
            ColumnKind::Boolean => self.collect_boolean(samples),
            ColumnKind::Int16 => self.collect_int16(samples),
            ColumnKind::Utf8 => self.collect_text(samples),
        }
    }
}

/// The columns of the table, in order, as a schema declares them.
pub open spec fn sample_schema() -> Seq<SchemaColumn> {
    Seq::new(
        SampleColumn::every().len(),
        |i: int| SampleColumn::every()[i].declaration(),
    )
}

/// The table of some samples: one row for each, in their order.
pub open spec fn sample_table(samples: Seq<Sample>) -> Seq<ColumnData> {
    Seq::new(
        SampleColumn::every().len(),
        |i: int| SampleColumn::every()[i].data(samples),
    )
}

/// Returns the Arrow schema used for Parquet sample files.
///
/// This schema is versioned by the `schema_version` column and should remain
/// stable for v1 so downstream readers can rely on fixed column names and types.
pub fn arrow_schema() -> (schema: Arc<Schema>)
    ensures
        schema_columns(*schema) == sample_schema(),
{
    let columns = SampleColumn::all();
    let mut fields: Vec<Field> = Vec::new();
    let mut i: usize = 0;
    while i < columns.len()
        invariant
            columns@ == SampleColumn::every(),
            i <= columns.len(),
            fields.len() == i,
            forall|j: int|
                0 <= j < i ==> field_column(#[trigger] fields[j]) == columns[j].declaration(),
        decreases columns.len() - i,
    {
        let column: SampleColumn = columns[i];
        fields.push(new_field(column.name(), column.kind(), column.nullable()));
        i = i + 1;
    }
    let schema = new_schema(fields);
    assert(schema_columns(schema) =~= sample_schema());
    Arc::new(schema)
}

/// Converts samples into an Arrow record batch with the provided schema.
///
/// Nullable derived fields are represented with Arrow nulls while raw fields are
/// always populated. The schema is that of [`arrow_schema`] or a compatible one.
///
/// # Errors
///
/// Returns an error if Arrow rejects the arrays for the provided schema.
pub fn samples_to_record_batch(samples: &[Sample], schema: Arc<Schema>) -> (batch: Result<
    TableBatch,
    BatchError,
>)
    requires
        texts_fit(samples@),
        times_valid(samples@),
    ensures
        batch is Ok <==> columns_fit(schema_columns(*schema), sample_table(samples@)),
        batch is Ok ==> batch_columns(batch->Ok_0) == sample_table(samples@),
        batch is Ok ==> batch_schema(batch->Ok_0) == schema_columns(*schema),
        schema_columns(*schema) == sample_schema() ==> batch is Ok,
{
    let names = SampleColumn::all();
    let mut columns: Vec<Column> = Vec::new();
    let mut i: usize = 0;
    while i < names.len()
        invariant
            texts_fit(samples@),
            times_valid(samples@),
            names@ == SampleColumn::every(),
            i <= names.len(),
            columns.len() == i,
            forall|j: int|
                0 <= j < i ==> column_data(#[trigger] columns[j]) == names[j].data(samples@),
        decreases names.len() - i,
    {
        columns.push(names[i].collect(samples));
        i = i + 1;
    }
    assert(columns_data(columns@) =~= sample_table(samples@));
    proof {
        law_table_fits_its_schema(samples@);
    }
    match new_record_batch(schema, columns) {
        Ok(batch) => Ok(batch),
        Err(_) => Err(BatchError),
    }
}

/// The table of any samples fits the schema of sample files.
pub proof fn law_table_fits_its_schema(samples: Seq<Sample>)
    ensures
        columns_fit(sample_schema(), sample_table(samples)),
{
    let table = sample_table(samples);
    assert(table.len() == SampleColumn::every().len());
    assert forall|i: int| 0 <= i < table.len() implies (#[trigger] table[i]).cells.len()
        == table[0].cells.len() && column_fits(sample_schema()[i], table[i]) by {
        let column = SampleColumn::every()[i];
        let cells = table[i].cells;
        assert forall|row: int|
            0 <= row < cells.len() && !column.may_be_null() implies !(
        #[trigger] cells[row] is Null) by {
            assert(cells[row] == column.cell(samples[row]));
        }
    }
}

/// Each row of the table holds the values of the sample at the same place.
pub proof fn law_one_row_for_each_sample(samples: Seq<Sample>, column: int, row: int)
    requires
        0 <= column < SampleColumn::every().len(),
        0 <= row < samples.len(),
    ensures
        sample_table(samples)[column].cells.len() == samples.len(),
        sample_table(samples)[column].cells[row] == SampleColumn::every()[column].cell(
            samples[row],
        ),
{
}

impl SampleColumn {
    fn int32_value(self, sample: &Sample) -> (value: i32)
        requires
            self.kind_of() == ColumnKind::Int32,
        ensures
            self.cell(*sample) == Cell::Integer(value as int),
    {
        sample.schema_version
    }

    fn collect_int32(self, samples: &[Sample]) -> (column: Column)
        requires
            self.kind_of() == ColumnKind::Int32,
        ensures
            column_data(column) == self.data(samples@),
    {
        let mut values: Vec<i32> = Vec::new();
        let mut i: usize = 0;
        while i < samples.len()
            invariant
                self.kind_of() == ColumnKind::Int32,
                i <= samples.len(),
                values.len() == i,
                forall|j: int|
                    0 <= j < i ==> self.cell(samples[j]) == Cell::Integer(
                        (#[trigger] values[j]) as int,
                    ),
            decreases samples.len() - i,
        {
            values.push(self.int32_value(&samples[i]));
            i = i + 1;
        }
        let column = int32_column(values);
        assert(column_data(column).cells =~= self.data(samples@).cells);
        column
    }

    fn int64_value(self, sample: &Sample) -> (value: i64)
        requires
            self.kind_of() == ColumnKind::Int64,
            sample.observed_at.valid(),
        ensures
            self.cell(*sample) == Cell::Integer(value as int),
    {
        sample.observed_at_unix_ms()
    }

    fn collect_int64(self, samples: &[Sample]) -> (column: Column)
        requires
            self.kind_of() == ColumnKind::Int64,
            times_valid(samples@),
        ensures
            column_data(column) == self.data(samples@),
    {
        let mut values: Vec<i64> = Vec::new();
        let mut i: usize = 0;
        while i < samples.len()
            invariant
                self.kind_of() == ColumnKind::Int64,
                times_valid(samples@),
                i <= samples.len(),
                values.len() == i,
                forall|j: int|
                    0 <= j < i ==> self.cell(samples[j]) == Cell::Integer(
                        (#[trigger] values[j]) as int,
                    ),
            decreases samples.len() - i,
        {
            values.push(self.int64_value(&samples[i]));
            i = i + 1;
        }
        let column = int64_column(values);
        assert(column_data(column).cells =~= self.data(samples@).cells);
        column
    }

    fn timestamp_value(self, sample: &Sample) -> (value: i64)
        requires
            self.kind_of() == ColumnKind::TimestampMillisUtc,
            sample.observed_at.valid(),
        ensures
            self.cell(*sample) == Cell::Integer(value as int),
    {
        sample.observed_at_unix_ms()
    }

    fn collect_timestamp(self, samples: &[Sample]) -> (column: Column)
        requires
            self.kind_of() == ColumnKind::TimestampMillisUtc,
            times_valid(samples@),
        ensures
            column_data(column) == self.data(samples@),
    {
        let mut values: Vec<i64> = Vec::new();
        let mut i: usize = 0;
        while i < samples.len()
            invariant
                self.kind_of() == ColumnKind::TimestampMillisUtc,
                times_valid(samples@),
                i <= samples.len(),
                values.len() == i,
                forall|j: int|
                    0 <= j < i ==> self.cell(samples[j]) == Cell::Integer(
                        (#[trigger] values[j]) as int,
                    ),
            decreases samples.len() - i,
        {
            values.push(self.timestamp_value(&samples[i]));
            i = i + 1;
        }
        let column = timestamp_column(values);
        assert(column_data(column).cells =~= self.data(samples@).cells);
        column
    }

    fn uint64_value(self, sample: &Sample) -> (value: u64)
        requires
            self.kind_of() == ColumnKind::UInt64,
        ensures
            self.cell(*sample) == Cell::Integer(value as int),
    {
        match self {
            SampleColumn::Serial => sample.serial,
            _ => sample.address_raw,
        }
    }

    fn collect_uint64(self, samples: &[Sample]) -> (column: Column)
        requires
            self.kind_of() == ColumnKind::UInt64,
        ensures
            column_data(column) == self.data(samples@),
    {
        let mut values: Vec<u64> = Vec::new();
        let mut i: usize = 0;
        while i < samples.len()
            invariant
                self.kind_of() == ColumnKind::UInt64,
                i <= samples.len(),
                values.len() == i,
                forall|j: int|
                    0 <= j < i ==> self.cell(samples[j]) == Cell::Integer(
                        (#[trigger] values[j]) as int,
                    ),
            decreases samples.len() - i,
        {
            values.push(self.uint64_value(&samples[i]));
            i = i + 1;
        }
        let column = uint64_column(values);
        assert(column_data(column).cells =~= self.data(samples@).cells);
        column
    }

    fn uint16_value(self, sample: &Sample) -> (value: Option<u16>)
        requires
            self.kind_of() == ColumnKind::UInt16,
        ensures
            self.cell(*sample) == uint16_cell(value),
    {
        match self {
            SampleColumn::FirmwareVersionBcd => Some(sample.firmware_version_bcd),
            SampleColumn::RuntimeRaw => Some(sample.runtime_raw),
            _ => sample.runtime_minutes,
        }
    }

    fn collect_uint16(self, samples: &[Sample]) -> (column: Column)
        requires
            self.kind_of() == ColumnKind::UInt16,
        ensures
            column_data(column) == self.data(samples@),
    {
        let mut values: Vec<Option<u16>> = Vec::new();
        let mut i: usize = 0;
        while i < samples.len()
            invariant
                self.kind_of() == ColumnKind::UInt16,
                i <= samples.len(),
                values.len() == i,
                forall|j: int|
                    0 <= j < i ==> self.cell(samples[j]) == uint16_cell(
                        #[trigger] values[j],
                    ),
            decreases samples.len() - i,
        {
            values.push(self.uint16_value(&samples[i]));
            i = i + 1;
        }
        let column = uint16_column(values);
        assert(column_data(column).cells =~= self.data(samples@).cells);
        column
    }

    fn uint8_value(self, sample: &Sample) -> (value: Option<u8>)
        requires
            self.kind_of() == ColumnKind::UInt8,
        ensures
            self.cell(*sample) == uint8_cell(value),
    {
        match self {
            SampleColumn::HardwareRevisionBcd => Some(sample.hardware_revision_bcd),
            SampleColumn::PowerStatusCode => Some(sample.power_status_code),
            SampleColumn::SocRaw => Some(sample.soc_raw),
            _ => sample.soc_percent,
        }
    }

    fn collect_uint8(self, samples: &[Sample]) -> (column: Column)
        requires
            self.kind_of() == ColumnKind::UInt8,
        ensures
            column_data(column) == self.data(samples@),
    {
        let mut values: Vec<Option<u8>> = Vec::new();
        let mut i: usize = 0;
        while i < samples.len()
            invariant
                self.kind_of() == ColumnKind::UInt8,
                i <= samples.len(),
                values.len() == i,
                forall|j: int|
                    0 <= j < i ==> self.cell(samples[j]) == uint8_cell(
                        #[trigger] values[j],
                    ),
            decreases samples.len() - i,
        {
            values.push(self.uint8_value(&samples[i]));
            i = i + 1;
        }
        let column = uint8_column(values);
        assert(column_data(column).cells =~= self.data(samples@).cells);
        column
    }

    fn uint32_value(self, sample: &Sample) -> (value: u32)
        requires
            self.kind_of() == ColumnKind::UInt32,
        ensures
            self.cell(*sample) == Cell::Integer(value as int),
    {
        match self {
            SampleColumn::DeviceTimeRaw => sample.device_time_raw,
            _ => sample.flags_raw,
        }
    }

    fn collect_uint32(self, samples: &[Sample]) -> (column: Column)
        requires
            self.kind_of() == ColumnKind::UInt32,
        ensures
            column_data(column) == self.data(samples@),
    {
        let mut values: Vec<u32> = Vec::new();
        let mut i: usize = 0;
        while i < samples.len()
            invariant
                self.kind_of() == ColumnKind::UInt32,
                i <= samples.len(),
                values.len() == i,
                forall|j: int|
                    0 <= j < i ==> self.cell(samples[j]) == Cell::Integer(
                        (#[trigger] values[j]) as int,
                    ),
            decreases samples.len() - i,
        {
            values.push(self.uint32_value(&samples[i]));
            i = i + 1;
        }
        let column = uint32_column(values);
        assert(column_data(column).cells =~= self.data(samples@).cells);
        column
    }

    fn single_value(self, sample: &Sample) -> (value: u32)
        requires
            self.kind_of() == ColumnKind::Float32,
        ensures
            self.cell(*sample) == Cell::Number(Single { bits: value }),
    {
        match self {
            SampleColumn::Voltage1Volts => sample.voltage1_volts.bits,
            SampleColumn::Voltage2Volts => sample.voltage2_volts.bits,
            SampleColumn::CurrentAmps => sample.current_amps.bits,
            SampleColumn::PowerWatts => sample.power_watts.bits,
            SampleColumn::CoulombMeterRaw => sample.coulomb_meter_raw.bits,
            SampleColumn::PowerMeterRaw => sample.power_meter_raw.bits,
            _ => sample.temperature_celsius.bits,
        }
    }

    fn collect_single(self, samples: &[Sample]) -> (column: Column)
        requires
            self.kind_of() == ColumnKind::Float32,
        ensures
            column_data(column) == self.data(samples@),
    {
        let mut values: Vec<u32> = Vec::new();
        let mut i: usize = 0;
        while i < samples.len()
            invariant
                self.kind_of() == ColumnKind::Float32,
                i <= samples.len(),
                values.len() == i,
                forall|j: int|
                    0 <= j < i ==> self.cell(samples[j]) == Cell::Number(
                        Single { bits: #[trigger] values[j] },
                    ),
            decreases samples.len() - i,
        {
            values.push(self.single_value(&samples[i]));
            i = i + 1;
        }
        let column = single_column(values);
        assert(column_data(column).cells =~= self.data(samples@).cells);
        column
    }

    fn boolean_value(self, sample: &Sample) -> (value: bool)
        requires
            self.kind_of() == ColumnKind::Boolean,
        ensures
            self.cell(*sample) == Cell::Truth(value),
    {
        sample.temperature_is_external
    }

    fn collect_boolean(self, samples: &[Sample]) -> (column: Column)
        requires
            self.kind_of() == ColumnKind::Boolean,
        ensures
            column_data(column) == self.data(samples@),
    {
        let mut values: Vec<bool> = Vec::new();
        let mut i: usize = 0;
        while i < samples.len()
            invariant
                self.kind_of() == ColumnKind::Boolean,
                i <= samples.len(),
                values.len() == i,
                forall|j: int|
                    0 <= j < i ==> self.cell(samples[j]) == Cell::Truth(
                        #[trigger] values[j],
                    ),
            decreases samples.len() - i,
        {
            values.push(self.boolean_value(&samples[i]));
            i = i + 1;
        }
        let column = boolean_column(values);
        assert(column_data(column).cells =~= self.data(samples@).cells);
        column
    }

    fn int16_value(self, sample: &Sample) -> (value: i16)
        requires
            self.kind_of() == ColumnKind::Int16,
        ensures
            self.cell(*sample) == Cell::Integer(value as int),
    {
        sample.rssi_dbm
    }

    fn collect_int16(self, samples: &[Sample]) -> (column: Column)
        requires
            self.kind_of() == ColumnKind::Int16,
        ensures
            column_data(column) == self.data(samples@),
    {
        let mut values: Vec<i16> = Vec::new();
        let mut i: usize = 0;
        while i < samples.len()
            invariant
                self.kind_of() == ColumnKind::Int16,
                i <= samples.len(),
                values.len() == i,
                forall|j: int|
                    0 <= j < i ==> self.cell(samples[j]) == Cell::Integer(
                        (#[trigger] values[j]) as int,
                    ),
            decreases samples.len() - i,
        {
            values.push(self.int16_value(&samples[i]));
            i = i + 1;
        }
        let column = int16_column(values);
        assert(column_data(column).cells =~= self.data(samples@).cells);
        column
    }
}

impl SampleColumn {
    fn collect_text(self, samples: &[Sample]) -> (column: Column)
        requires
            self.kind_of() == ColumnKind::Utf8,
            texts_fit(samples@),
        ensures
            column_data(column) == self.data(samples@),
    {
        let field: TextField = match self {
            SampleColumn::AddressDisplay => TextField::AddressDisplay,
            SampleColumn::AddressKind => TextField::AddressKind,
            SampleColumn::Name => TextField::Name,
            SampleColumn::Model => TextField::Model,
            SampleColumn::FirmwareVersion => TextField::FirmwareVersion,
            SampleColumn::HardwareRevision => TextField::HardwareRevision,
            _ => TextField::PowerStatus,
        };
        let column = text_values(field, samples);
        assert(column_data(column).cells =~= self.data(samples@).cells);
        column
    }
}

/// Collects the texts of one field.
fn text_values(field: TextField, samples: &[Sample]) -> (column: Column)
    requires
        texts_fit(samples@),
    ensures
        column_data(column) == (ColumnData {
            kind: ColumnKind::Utf8,
            cells: Seq::new(samples.len() as nat, |i: int| text_cell(field.text(samples[i]))),
        }),
{
    let mut values: Vec<Option<&str>> = Vec::new();
    let mut i: usize = 0;
    while i < samples.len()
        invariant
            i <= samples.len(),
            values.len() == i,
            forall|j: int|
                0 <= j < i ==> shown_texts(values@)[j] == #[trigger] field.texts(samples@)[j],
        decreases samples.len() - i,
    {
        let ghost before = values@;
        let text = field.value(&samples[i]);
        values.push(text);
        proof {
            assert forall|j: int| 0 <= j < i + 1 implies shown_texts(values@)[j]
                == #[trigger] field.texts(samples@)[j] by {
                if j < i {
                    assert(shown_texts(before)[j] == field.texts(samples@)[j]);
                    assert(before[j] == values[j]);
                }
            }
        }
        i = i + 1;
    }
    assert(shown_texts(values@) =~= field.texts(samples@));
    let column = text_column(values);
    assert(column_data(column).cells =~= Seq::new(
        samples.len() as nat,
        |i: int| text_cell(field.text(samples[i])),
    ));
    column
}

/// Returns whether the texts of each field can be stored together.
pub fn text_columns_fit(samples: &[Sample]) -> (answer: bool)
    ensures
        answer == texts_fit(samples@),
{
    let fits: bool = field_fits(TextField::AddressDisplay, samples) && field_fits(
        TextField::AddressKind,
        samples,
    ) && field_fits(TextField::Name, samples) && field_fits(TextField::Model, samples)
        && field_fits(TextField::FirmwareVersion, samples) && field_fits(
        TextField::HardwareRevision,
        samples,
    ) && field_fits(TextField::PowerStatus, samples);
    proof {
        if fits {
            assert forall|field: TextField| text_bytes(#[trigger] field.texts(samples@))
                <= i32::MAX by {
                match field {
                    TextField::AddressDisplay => {},
                    TextField::AddressKind => {},
                    TextField::Name => {},
                    TextField::Model => {},
                    TextField::FirmwareVersion => {},
                    TextField::HardwareRevision => {},
                    TextField::PowerStatus => {},
                }
            }
        }
    }
    fits
}

fn field_fits(field: TextField, samples: &[Sample]) -> (answer: bool)
    ensures
        answer == (text_bytes(field.texts(samples@)) <= i32::MAX),
{
    let ghost texts = field.texts(samples@);
    let mut bytes: u64 = 0;
    let mut i: usize = 0;
    while i < samples.len()
        invariant
            texts == field.texts(samples@),
            i <= samples.len(),
            bytes == text_bytes(texts.take(i as int)),
            bytes <= i32::MAX,
        decreases samples.len() - i,
    {
        assert(texts.take(i + 1).drop_last() =~= texts.take(i as int));
        if let Some(text) = field.value(&samples[i]) {
            let more: usize = text.as_bytes().len();
            if more > 0x7fff_ffff || bytes + (more as u64) > 0x7fff_ffff {
                proof {
                    lemma_text_bytes_grow(texts, i + 1);
                }
                return false;
            }
            bytes = bytes + more as u64;
        }
        i = i + 1;
    }
    assert(texts.take(samples.len() as int) =~= texts);
    true
}

proof fn lemma_text_bytes_grow(texts: Seq<Option<Seq<char>>>, count: int)
    requires
        0 <= count <= texts.len(),
    ensures
        text_bytes(texts.take(count)) <= text_bytes(texts),
    decreases texts.len() - count,
{
    if count < texts.len() {
        assert(texts.take(count + 1).drop_last() =~= texts.take(count));
        lemma_text_bytes_grow(texts, count + 1);
    } else {
        assert(texts.take(count) =~= texts);
    }
}

} // verus!
