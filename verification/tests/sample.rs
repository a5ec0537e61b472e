use wattdog::sample::{format_bcd_u16, format_bcd_u8, normalize_runtime, normalize_soc};

#[test]
fn formats_bcd_versions() {
    assert_eq!(format_bcd_u16(0x0120).as_deref(), Some("01.20"));
    assert_eq!(format_bcd_u8(0x34).as_deref(), Some("3.4"));
    assert_eq!(format_bcd_u16(0x0A20), None);
}

#[test]
fn normalizes_fuel_gauge_sentinels() {
    assert_eq!(normalize_soc(77), Some(77));
    assert_eq!(normalize_soc(0xFE), None);
    assert_eq!(normalize_soc(0xFF), None);
    assert_eq!(normalize_runtime(123), Some(123));
    assert_eq!(normalize_runtime(0xFFFE), None);
    assert_eq!(normalize_runtime(0xFFFF), None);
}
