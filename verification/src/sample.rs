//! Sample model and Thornwave advertisement normalization.
//!
//! A [`Sample`] is the owned representation of one passive scanner advertisement.
//! It keeps the raw Thornwave values and adds cautious derived fields, such as
//! readable versions and nullable fuel-gauge values.

use vstd::prelude::*;

use crate::calendar::UtcTime;
use crate::float::Single;
use crate::text::{decode_lossy, digit, digit_text, lossy_text, trim, trimmed};

pub mod meaning;

verus! {

/// Current Parquet schema version written for each observed advertisement.
pub const SCHEMA_VERSION: i32 = 1;

const FG_SOC_DISABLED: u8 = 0xFF;

const FG_SOC_UNKNOWN: u8 = 0xFE;

const FG_RUNTIME_DISABLED: u16 = 0xFFFF;

const FG_RUNTIME_UNKNOWN: u16 = 0xFFFE;

const FG_RUNTIME_MAX: u16 = 0xFFF0;

/// One advertisement as the scanner delivers it.
///
/// The texts are byte buffers of fixed size in which a zero byte ends the text.
#[derive(Debug)]
pub struct TwAdvertisement {
    /// Device serial number.
    pub serial: u64,
    /// Raw advertised device address.
    pub address_raw: u64,
    /// Display form of the address.
    pub address_display: Vec<u8>,
    /// Advertised device name.
    pub name: Vec<u8>,
    /// Hardware model name.
    pub model: Vec<u8>,
    /// Firmware version in BCD.
    pub firmware_version_bcd: u16,
    /// Hardware revision in BCD.
    pub hardware_revision_bcd: u8,
    /// Raw device time.
    pub device_time_raw: u32,
    /// Raw flags.
    pub flags_raw: u32,
    /// Voltage channel 1 in volts.
    pub voltage1_volts: Single,
    /// Voltage channel 2 in volts.
    pub voltage2_volts: Single,
    /// Current in amperes.
    pub current_amps: Single,
    /// Power in watts.
    pub power_watts: Single,
    /// Raw coulomb-meter value.
    pub coulomb_meter_raw: Single,
    /// Raw power-meter value.
    pub power_meter_raw: Single,
    /// Temperature in Celsius.
    pub temperature_celsius: Single,
    /// Whether the temperature comes from an external sensor.
    pub temperature_is_external: bool,
    /// Raw power-status code.
    pub power_status_code: u8,
    /// Display form of the power status.
    pub power_status_display: Vec<u8>,
    /// Raw state-of-charge byte.
    pub soc_raw: u8,
    /// Raw runtime value.
    pub runtime_raw: u16,
    /// RSSI in dBm.
    pub rssi_dbm: i16,
}

/// One passive Thornwave advertisement after conversion into owned data.
///
/// Field names match the Parquet schema where possible. Raw fields are retained
/// even when normalized values are unavailable.
#[derive(Clone, Debug)]
pub struct Sample {
    /// Schema version associated with this row.
    pub schema_version: i32,
    /// Host observation time.
    pub observed_at: UtcTime,
    /// Thornwave device serial number, used as the stable device identity.
    pub serial: u64,
    /// Raw advertised device address from the SDK.
    pub address_raw: u64,
    /// SDK-rendered display address, such as a BLE MAC address or IPv4 address.
    pub address_display: Option<String>,
    /// Derived address kind: `ble_mac`, `ipv4`, or `unknown`.
    pub address_kind: Option<String>,
    /// Advertised device name when present.
    pub name: Option<String>,
    /// SDK-rendered hardware model name when available.
    pub model: Option<String>,
    /// Raw firmware version in Thornwave BCD format.
    pub firmware_version_bcd: u16,
    /// Readable firmware version derived from BCD, if valid.
    pub firmware_version: Option<String>,
    /// Raw hardware revision in Thornwave BCD format.
    pub hardware_revision_bcd: u8,
    /// Readable hardware revision derived from BCD, if valid.
    pub hardware_revision: Option<String>,
    /// Raw device time advertised by the PowerMon; not assumed to be UTC.
    pub device_time_raw: u32,
    /// Raw advertised Thornwave flags.
    pub flags_raw: u32,
    /// Advertised voltage channel 1 in volts.
    pub voltage1_volts: Single,
    /// Advertised voltage channel 2 in volts.
    pub voltage2_volts: Single,
    /// Advertised current in amperes.
    pub current_amps: Single,
    /// Advertised power in watts.
    pub power_watts: Single,
    /// Raw advertised coulomb-meter value; units are left as they are.
    pub coulomb_meter_raw: Single,
    /// Raw advertised power-meter value; units are left as they are.
    pub power_meter_raw: Single,
    /// Advertised temperature in Celsius.
    pub temperature_celsius: Single,
    /// Whether the advertised temperature comes from an external sensor.
    pub temperature_is_external: bool,
    /// Raw Thornwave power-status code.
    pub power_status_code: u8,
    /// SDK-rendered power-status string when available.
    pub power_status: Option<String>,
    /// Raw advertised state-of-charge byte.
    pub soc_raw: u8,
    /// State-of-charge percentage, or `None` for sentinel or invalid values.
    pub soc_percent: Option<u8>,
    /// Raw advertised runtime value.
    pub runtime_raw: u16,
    /// Runtime in minutes, or `None` for sentinel or invalid values.
    pub runtime_minutes: Option<u16>,
    /// Advertised RSSI in dBm.
    pub rssi_dbm: i16,
}

/// State of charge that a raw byte stands for: a percentage up to 100.
pub open spec fn soc_of(value: u8) -> Option<u8> {
    if value <= 100 {
        Some(value)
    } else {
        None
    }
}

/// Runtime that a raw value stands for: minutes up to the documented maximum.
pub open spec fn runtime_of(value: u16) -> Option<u16> {
    if value <= 0xFFF0 {
        Some(value)
    } else {
        None
    }
}

/// The hexadecimal digit of `value` at `place`, counted from the lowest.
pub open spec fn nibble(value: int, place: nat) -> int
    decreases place,
{
    if place == 0 {
        value % 16
    } else {
        nibble(value / 16, (place - 1) as nat)
    }
}

/// `XX.YY` for a 16-bit BCD version.
pub open spec fn bcd_version(value: u16) -> Option<Seq<char>> {
    let v = value as int;
    if nibble(v, 3) <= 9 && nibble(v, 2) <= 9 && nibble(v, 1) <= 9 && nibble(v, 0) <= 9 {
        Some(
            seq![
                digit(nibble(v, 3)),
                digit(nibble(v, 2)),
                '.',
                digit(nibble(v, 1)),
                digit(nibble(v, 0)),
            ],
        )
    } else {
        None
    }
}

/// `X.Y` for an 8-bit BCD revision.
pub open spec fn bcd_revision(value: u8) -> Option<Seq<char>> {
    let v = value as int;
    if nibble(v, 1) <= 9 && nibble(v, 0) <= 9 {
        Some(seq![digit(nibble(v, 1)), '.', digit(nibble(v, 0))])
    } else {
        None
    }
}

/// Kind of address that devices of a hardware family advertise. The family is the
/// high digit of the hardware revision.
pub open spec fn address_kind_of(hardware_revision_bcd: u8) -> Seq<char> {
    let family = nibble(hardware_revision_bcd as int, 1);
    if family == 1 || family == 4 {
        "ipv4"@
    } else if family == 2 || family == 3 {
        "ble_mac"@
    } else {
        "unknown"@
    }
}

/// The bytes in front of the first zero byte, or all of them if there is none.
pub open spec fn before_zero(buffer: Seq<u8>) -> Seq<u8>
    decreases buffer.len(),
{
    if buffer.len() == 0 || buffer[0] == 0 {
        Seq::empty()
    } else {
        seq![buffer[0]] + before_zero(buffer.drop_first())
    }
}

/// The text in a zero-terminated buffer, without white space around it, and nothing
/// when no text is left.
pub open spec fn buffer_text(buffer: Seq<u8>) -> Option<Seq<char>> {
    let text = trimmed(lossy_text(before_zero(buffer)));
    if before_zero(buffer).len() == 0 || text.len() == 0 {
        None
    } else {
        Some(text)
    }
}

/// Whether a sample is what an advertisement observed at some time says.
pub open spec fn is_sample_of(
    sample: Sample,
    advertisement: TwAdvertisement,
    observed_at: UtcTime,
) -> bool {
    &&& sample.schema_version == SCHEMA_VERSION
    &&& sample.observed_at == observed_at
    &&& sample.serial == advertisement.serial
    &&& sample.address_raw == advertisement.address_raw
    &&& sample.address_display.deep_view() == buffer_text(advertisement.address_display@)
    &&& sample.address_kind.deep_view() == Some(
        address_kind_of(advertisement.hardware_revision_bcd),
    )
    &&& sample.name.deep_view() == buffer_text(advertisement.name@)
    &&& sample.model.deep_view() == buffer_text(advertisement.model@)
    &&& sample.firmware_version_bcd == advertisement.firmware_version_bcd
    &&& sample.firmware_version.deep_view() == bcd_version(advertisement.firmware_version_bcd)
    &&& sample.hardware_revision_bcd == advertisement.hardware_revision_bcd
    &&& sample.hardware_revision.deep_view() == bcd_revision(advertisement.hardware_revision_bcd)
    &&& sample.device_time_raw == advertisement.device_time_raw
    &&& sample.flags_raw == advertisement.flags_raw
    &&& sample.voltage1_volts == advertisement.voltage1_volts
    &&& sample.voltage2_volts == advertisement.voltage2_volts
    &&& sample.current_amps == advertisement.current_amps
    &&& sample.power_watts == advertisement.power_watts
    &&& sample.coulomb_meter_raw == advertisement.coulomb_meter_raw
    &&& sample.power_meter_raw == advertisement.power_meter_raw
    &&& sample.temperature_celsius == advertisement.temperature_celsius
    &&& sample.temperature_is_external == advertisement.temperature_is_external
    &&& sample.power_status_code == advertisement.power_status_code
    &&& sample.power_status.deep_view() == buffer_text(advertisement.power_status_display@)
    &&& sample.soc_raw == advertisement.soc_raw
    &&& sample.soc_percent == soc_of(advertisement.soc_raw)
    &&& sample.runtime_raw == advertisement.runtime_raw
    &&& sample.runtime_minutes == runtime_of(advertisement.runtime_raw)
    &&& sample.rssi_dbm == advertisement.rssi_dbm
}

impl Sample {
    /// Converts an advertisement observed at `observed_at` into an owned sample.
    pub fn from_tw_advertisement(
        advertisement: &TwAdvertisement,
        observed_at: UtcTime,
    ) -> (sample: Self)
        ensures
            is_sample_of(sample, *advertisement, observed_at),
    {
        let hardware_revision_bcd: u8 = advertisement.hardware_revision_bcd;
        Sample {
            schema_version: SCHEMA_VERSION,
            observed_at,
            serial: advertisement.serial,
            address_raw: advertisement.address_raw,
            address_display: c_char_array_to_string(advertisement.address_display.as_slice()),
            address_kind: Some(address_kind(hardware_revision_bcd).to_owned()),
            name: c_char_array_to_string(advertisement.name.as_slice()),
            model: c_char_array_to_string(advertisement.model.as_slice()),
            firmware_version_bcd: advertisement.firmware_version_bcd,
            firmware_version: format_bcd_u16(advertisement.firmware_version_bcd),
            hardware_revision_bcd,
            hardware_revision: format_bcd_u8(hardware_revision_bcd),
            device_time_raw: advertisement.device_time_raw,
            flags_raw: advertisement.flags_raw,
            voltage1_volts: advertisement.voltage1_volts,
            voltage2_volts: advertisement.voltage2_volts,
            current_amps: advertisement.current_amps,
            power_watts: advertisement.power_watts,
            coulomb_meter_raw: advertisement.coulomb_meter_raw,
            power_meter_raw: advertisement.power_meter_raw,
            temperature_celsius: advertisement.temperature_celsius,
            temperature_is_external: advertisement.temperature_is_external,
            power_status_code: advertisement.power_status_code,
            power_status: c_char_array_to_string(advertisement.power_status_display.as_slice()),
            soc_raw: advertisement.soc_raw,
            soc_percent: normalize_soc(advertisement.soc_raw),
            runtime_raw: advertisement.runtime_raw,
            runtime_minutes: normalize_runtime(advertisement.runtime_raw),
            rssi_dbm: advertisement.rssi_dbm,
        }
    }

    /// Returns the host observation time as Unix milliseconds.
    pub fn observed_at_unix_ms(&self) -> (millis: i64)
        requires
            self.observed_at.valid(),
        ensures
            millis == self.observed_at.secs * 1000 + self.observed_at.nanos as int / 1_000_000,
    {
        self.observed_at.unix_millis()
    }
}

/// Normalizes a Thornwave fuel-gauge state-of-charge byte.
///
/// The sentinels for a disabled or unknown fuel gauge, and all other values above
/// 100, are mapped to `None`.
pub fn normalize_soc(value: u8) -> (percent: Option<u8>)
    ensures
        percent == soc_of(value),
{
    if value == FG_SOC_DISABLED || value == FG_SOC_UNKNOWN {
        None
    } else if value <= 100 {
        Some(value)
    } else {
        None
    }
}

/// Normalizes a Thornwave fuel-gauge runtime value.
///
/// The sentinels for disabled or unknown runtime, and all other values above the
/// documented maximum, are mapped to `None`.
pub fn normalize_runtime(value: u16) -> (minutes: Option<u16>)
    ensures
        minutes == runtime_of(value),
{
    if value == FG_RUNTIME_DISABLED || value == FG_RUNTIME_UNKNOWN {
        None
    } else if value <= FG_RUNTIME_MAX {
        Some(value)
    } else {
        None
    }
}

/// Formats a 16-bit Thornwave BCD version as `XX.YY`.
///
/// Returns `None` if any digit is not decimal.
pub fn format_bcd_u16(value: u16) -> (text: Option<String>)
    ensures
        text.deep_view() == bcd_version(value),
{
    proof {
        reveal_with_fuel(nibble, 4);
        reveal_strlit(".");
    }
    if !is_bcd_u16(value) {
        return None;
    }
    let mut text = digit_text((value / 4096 % 16) as u8).to_owned();
    text.append(digit_text((value / 256 % 16) as u8));
    text.append(".");
    text.append(digit_text((value / 16 % 16) as u8));
    text.append(digit_text((value % 16) as u8));
    assert(text@ =~= bcd_version(value)->0);
    Some(text)
}

/// Formats an 8-bit Thornwave BCD revision as `X.Y`.
///
/// Returns `None` if either digit is not decimal.
pub fn format_bcd_u8(value: u8) -> (text: Option<String>)
    ensures
        text.deep_view() == bcd_revision(value),
{
    proof {
        reveal_with_fuel(nibble, 2);
        reveal_strlit(".");
    }
    if !is_bcd_u8(value) {
        return None;
    }
    let mut text = digit_text(value / 16 % 16).to_owned();
    text.append(".");
    text.append(digit_text(value % 16));
    assert(text@ =~= bcd_revision(value)->0);
    Some(text)
}

fn is_bcd_u16(value: u16) -> (answer: bool)
    ensures
        answer == (bcd_version(value) is Some),
{
    proof {
        reveal_with_fuel(nibble, 4);
    }
    value % 16 <= 9 && value / 16 % 16 <= 9 && value / 256 % 16 <= 9 && value / 4096 % 16 <= 9
}

fn is_bcd_u8(value: u8) -> (answer: bool)
    ensures
        answer == (bcd_revision(value) is Some),
{
    proof {
        reveal_with_fuel(nibble, 2);
    }
    value / 16 % 16 <= 9 && value % 16 <= 9
}

fn address_kind(hardware_revision_bcd: u8) -> (kind: &'static str)
    ensures
        kind@ == address_kind_of(hardware_revision_bcd),
{
    proof {
        reveal_with_fuel(nibble, 2);
    }
    let family: u8 = hardware_revision_bcd / 16;
    if family == 1 || family == 4 {
        "ipv4"
    } else if family == 2 || family == 3 {
        "ble_mac"
    } else {
        "unknown"
    }
}

/// Reads the text in a zero-terminated buffer.
///
/// Returns `None` for an empty text and for one that is only white space.
pub fn c_char_array_to_string(buffer: &[u8]) -> (text: Option<String>)
    ensures
        text.deep_view() == buffer_text(buffer@),
{
    let mut end: usize = 0;
    while end < buffer.len() && buffer[end] != 0
        invariant
            end <= buffer.len(),
            forall|i: int| 0 <= i < end ==> buffer@[i] != 0,
        ensures
            end <= buffer.len(),
            forall|i: int| 0 <= i < end ==> buffer@[i] != 0,
            end < buffer.len() ==> buffer@[end as int] == 0,
        decreases buffer.len() - end,
    {
        end = end + 1;
    }
    proof {
        lemma_before_zero(buffer@, end as int);
    }
    if end == 0 {
        return None;
    }
    let bytes = vstd::slice::slice_subrange(buffer, 0, end);
    trimmed_text(decode_lossy(bytes).as_str())
}

/// Returns a text without white space around it, and nothing when no text is left.
pub fn trimmed_text(text: &str) -> (inner: Option<String>)
    ensures
        inner.deep_view() == (if trimmed(text@).len() == 0 {
            None
        } else {
            Some(trimmed(text@))
        }),
{
    let value = trim(text);
    if value.as_str().is_empty() {
        None
    } else {
        Some(value)
    }
}

proof fn lemma_before_zero(buffer: Seq<u8>, end: int)
    requires
        0 <= end <= buffer.len(),
        forall|i: int| 0 <= i < end ==> buffer[i] != 0,
        end < buffer.len() ==> buffer[end] == 0,
    ensures
        before_zero(buffer) =~= buffer.take(end),
    decreases end,
{
    if end > 0 {
        let rest = buffer.drop_first();
        assert forall|i: int| 0 <= i < end - 1 implies rest[i] != 0 by {
            assert(rest[i] == buffer[i + 1]);
        }
        lemma_before_zero(rest, end - 1);
        assert(seq![buffer[0]] + rest.take(end - 1) =~= buffer.take(end));
    }
}

} // verus!
