//! What the raw values of an advertisement stand for.

use vstd::prelude::*;

use crate::calendar::UtcTime;
use crate::sample::{
    address_kind_of, bcd_revision, bcd_version, before_zero, buffer_text, is_sample_of, nibble,
    runtime_of, soc_of, Sample, TwAdvertisement,
};
use crate::text::{lossy_text, trimmed};

verus! {

/// A charge is known exactly if it is a percentage, and is then the raw value. Both
/// sentinels stand for none.
pub proof fn law_charge_is_a_percentage(value: u8)
    ensures
        soc_of(value) is Some <==> value <= 100,
        soc_of(value) is Some ==> soc_of(value)->0 == value,
        value >= 0xFE ==> soc_of(value) is None,
{
}

/// A runtime is known exactly up to 65520 minutes, and is then the raw value. Both sentinels
/// stand for none.
pub proof fn law_runtime_is_in_minutes(value: u16)
    ensures
        runtime_of(value) is Some <==> value <= 65520,
        runtime_of(value) is Some ==> runtime_of(value)->0 == value,
        value >= 0xFFFE ==> runtime_of(value) is None,
{
}

/// Whether a character is the decimal digit of a value.
pub open spec fn writes(c: char, value: int) -> bool {
    0 <= value <= 9 && c as int == '0' as int + value
}

/// A version that consists of decimal digits is written with them in order and a point in
/// the middle. One with another digit has no text.
pub proof fn law_version_is_written_in_digits(value: u16, a: int, b: int, c: int, d: int)
    requires
        0 <= a < 16,
        0 <= b < 16,
        0 <= c < 16,
        0 <= d < 16,
        value == a * 4096 + b * 256 + c * 16 + d,
    ensures
        bcd_version(value) is Some <==> a <= 9 && b <= 9 && c <= 9 && d <= 9,
        bcd_version(value) matches Some(text) ==> text.len() == 5 && writes(text[0], a) && writes(
            text[1],
            b,
        ) && text[2] == '.' && writes(text[3], c) && writes(text[4], d),
{
    reveal_with_fuel(nibble, 4);
    let v = value as int;
    assert(v % 16 == d);
    assert(v / 16 == a * 256 + b * 16 + c);
    assert(v / 16 / 16 == a * 16 + b);
    assert(v / 16 / 16 / 16 == a);
}

/// A revision that consists of decimal digits is written with the two of them and a point in
/// between. One with another digit has no text.
pub proof fn law_revision_is_written_in_digits(value: u8, a: int, b: int)
    requires
        0 <= a < 16,
        0 <= b < 16,
        value == a * 16 + b,
    ensures
        bcd_revision(value) is Some <==> a <= 9 && b <= 9,
        bcd_revision(value) matches Some(text) ==> text.len() == 3 && writes(text[0], a)
            && text[1] == '.' && writes(text[2], b),
{
    reveal_with_fuel(nibble, 2);
    let v = value as int;
    assert(v % 16 == b);
    assert(v / 16 == a);
}

/// Devices of the families 1 and 4 advertise IPv4 addresses and those of the families 2 and
/// 3 BLE ones, whatever the low digit of their revision is. Of others it is not known.
pub proof fn law_family_tells_the_kind_of_address(hardware_revision_bcd: u8, family: int, low: int)
    requires
        0 <= family < 16,
        0 <= low < 16,
        hardware_revision_bcd == family * 16 + low,
    ensures
        family == 1 ==> address_kind_of(hardware_revision_bcd) == "ipv4"@,
        family == 2 ==> address_kind_of(hardware_revision_bcd) == "ble_mac"@,
        family == 3 ==> address_kind_of(hardware_revision_bcd) == "ble_mac"@,
        family == 4 ==> address_kind_of(hardware_revision_bcd) == "ipv4"@,
        family == 0 || family > 4 ==> address_kind_of(hardware_revision_bcd) == "unknown"@,
{
    reveal_with_fuel(nibble, 2);
    let v = hardware_revision_bcd as int;
    assert(v / 16 == family);
}

/// A zero byte ends the text of a buffer, and without one the whole buffer is text.
pub proof fn law_text_ends_at_the_first_zero(buffer: Seq<u8>)
    ensures
        ({
            let text = before_zero(buffer);
            &&& text.len() <= buffer.len()
            &&& text == buffer.take(text.len() as int)
            &&& forall|i: int| 0 <= i < text.len() ==> #[trigger] buffer[i] != 0
            &&& text.len() < buffer.len() ==> buffer[text.len() as int] == 0
        }),
    decreases buffer.len(),
{
    let text = before_zero(buffer);
    if buffer.len() == 0 || buffer[0] == 0 {
        assert(text =~= buffer.take(0));
    } else {
        let rest = buffer.drop_first();
        law_text_ends_at_the_first_zero(rest);
        assert(text.len() == before_zero(rest).len() + 1);
        assert forall|i: int| 0 <= i < text.len() implies #[trigger] buffer[i] != 0 by {
            if i > 0 {
                assert(rest[i - 1] == buffer[i]);
            }
        }
        if text.len() < buffer.len() {
            assert(rest[text.len() - 1] == buffer[text.len() as int]);
        }
        assert(text =~= buffer.take(text.len() as int)) by {
            assert forall|i: int| 0 <= i < text.len() implies text[i] == buffer[i] by {
                if i > 0 {
                    assert(text[i] == before_zero(rest)[i - 1]);
                    assert(rest.take(before_zero(rest).len() as int)[i - 1] == rest[i - 1]);
                }
            }
        }
    }
}

/// A buffer that starts with a zero byte, or whose text is only white space, holds no text.
/// Any other one holds its text without the white space around it.
pub proof fn law_buffer_holds_trimmed_text(buffer: Seq<u8>)
    ensures
        ({
            let inner = trimmed(lossy_text(before_zero(buffer)));
            &&& buffer.len() == 0 || buffer[0] == 0 ==> buffer_text(buffer) is None
            &&& inner.len() == 0 ==> buffer_text(buffer) is None
            &&& buffer.len() > 0 && buffer[0] != 0 && inner.len() > 0 ==> buffer_text(buffer)
                == Some(inner)
        }),
{
}

/// A sample keeps every raw value of its advertisement, whatever is made of it, and the time.
pub proof fn law_sample_keeps_raw_values(
    sample: Sample,
    advertisement: TwAdvertisement,
    observed_at: UtcTime,
)
    requires
        is_sample_of(sample, advertisement, observed_at),
    ensures
        sample.schema_version == 1,
        sample.observed_at == observed_at,
        sample.serial == advertisement.serial,
        sample.address_raw == advertisement.address_raw,
        sample.firmware_version_bcd == advertisement.firmware_version_bcd,
        sample.hardware_revision_bcd == advertisement.hardware_revision_bcd,
        sample.device_time_raw == advertisement.device_time_raw,
        sample.flags_raw == advertisement.flags_raw,
        sample.voltage1_volts == advertisement.voltage1_volts,
        sample.voltage2_volts == advertisement.voltage2_volts,
        sample.current_amps == advertisement.current_amps,
        sample.power_watts == advertisement.power_watts,
        sample.coulomb_meter_raw == advertisement.coulomb_meter_raw,
        sample.power_meter_raw == advertisement.power_meter_raw,
        sample.temperature_celsius == advertisement.temperature_celsius,
        sample.temperature_is_external == advertisement.temperature_is_external,
        sample.power_status_code == advertisement.power_status_code,
        sample.soc_raw == advertisement.soc_raw,
        sample.runtime_raw == advertisement.runtime_raw,
        sample.rssi_dbm == advertisement.rssi_dbm,
{
}

/// Whether an optional text is that of a buffer.
pub open spec fn reads(text: Option<String>, buffer: Seq<u8>) -> bool {
    &&& text is Some <==> buffer_text(buffer) is Some
    &&& text is Some ==> text->0@ == buffer_text(buffer)->0
}

proof fn lemma_reads(text: Option<String>, buffer: Seq<u8>)
    requires
        text.deep_view() == buffer_text(buffer),
    ensures
        reads(text, buffer),
{
    if text is Some {
        assert(text.deep_view() == Some(text->0@));
    }
}

/// What is derived goes with the raw value it is derived from: each text with its own buffer,
/// the versions with their codes, the kind of address with the revision, the charge and the
/// runtime with their raw values.
pub proof fn law_sample_derives_from_its_own_values(
    sample: Sample,
    advertisement: TwAdvertisement,
    observed_at: UtcTime,
)
    requires
        is_sample_of(sample, advertisement, observed_at),
    ensures
        reads(sample.address_display, advertisement.address_display@),
        reads(sample.name, advertisement.name@),
        reads(sample.model, advertisement.model@),
        reads(sample.power_status, advertisement.power_status_display@),
        sample.address_kind is Some,
        sample.address_kind->0@ == address_kind_of(sample.hardware_revision_bcd),
        sample.firmware_version is Some <==> bcd_version(sample.firmware_version_bcd) is Some,
        sample.firmware_version is Some ==> sample.firmware_version->0@ == bcd_version(
            sample.firmware_version_bcd,
        )->0,
        sample.hardware_revision is Some <==> bcd_revision(sample.hardware_revision_bcd) is Some,
        sample.hardware_revision is Some ==> sample.hardware_revision->0@ == bcd_revision(
            sample.hardware_revision_bcd,
        )->0,
        sample.soc_percent == soc_of(sample.soc_raw),
        sample.runtime_minutes == runtime_of(sample.runtime_raw),
{
    lemma_reads(sample.address_display, advertisement.address_display@);
    lemma_reads(sample.name, advertisement.name@);
    lemma_reads(sample.model, advertisement.model@);
    lemma_reads(sample.power_status, advertisement.power_status_display@);
    if sample.address_kind is Some {
        assert(sample.address_kind.deep_view() == Some(sample.address_kind->0@));
    }
    if sample.firmware_version is Some {
        assert(sample.firmware_version.deep_view() == Some(sample.firmware_version->0@));
    }
    if sample.hardware_revision is Some {
        assert(sample.hardware_revision.deep_view() == Some(sample.hardware_revision->0@));
    }
}

} // verus!
