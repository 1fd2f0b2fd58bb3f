//! Resolution table and the device configuration byte.

use camstream::settings::{settings_byte, Resolution, Setting, CLOCK_DIVISOR_MAX, RESOLUTION_MAX};

#[test]
fn selectable_codes_map_to_resolutions() {
    assert_eq!(Resolution::from_u8(0), Some(Resolution::S160x120));
    assert_eq!(Resolution::from_u8(1), Some(Resolution::S320x240));
    assert_eq!(Resolution::from_u8(2), Some(Resolution::S640x480));
    assert_eq!(Resolution::from_u8(3), Some(Resolution::S800x600));
    assert_eq!(Resolution::from_u8(4), Some(Resolution::S1024x768));
    assert_eq!(Resolution::from_u8(5), Some(Resolution::S1600x1200));
}

#[test]
fn codes_past_the_slider_range_select_nothing() {
    assert_eq!(Resolution::from_u8(RESOLUTION_MAX), None);
    assert_eq!(Resolution::from_u8(7), None);
    assert_eq!(Resolution::from_u8(255), None);
}

#[test]
fn selectable_resolutions_round_trip_through_their_code() {
    for n in 0..RESOLUTION_MAX {
        let r = Resolution::from_u8(n).unwrap();
        assert_eq!(r.code(), n);
    }
}

#[test]
fn dimensions_match_the_labels() {
    assert_eq!(Resolution::S160x120.dimensions(), (160, 120));
    assert_eq!(Resolution::S160x120.label(), "160 x 120");
    assert_eq!(Resolution::S1024x768.dimensions(), (1024, 768));
    assert_eq!(Resolution::S1024x768.label(), "1024 x 768");
    assert_eq!(Resolution::T352x288.dimensions(), (352, 288));
    assert_eq!(Resolution::T352x288.label(), "352 x 288");
    assert_eq!(Resolution::T1280x1024.dimensions(), (1280, 1024));
    assert_eq!(Resolution::T1280x1024.label(), "1280 x 1024");
}

#[test]
fn settings_byte_packs_code_and_divisor() {
    // Resolution code in bits 7..5, half the zero-based divisor in
    // bits 4..0.
    assert_eq!(settings_byte(Resolution::S160x120, CLOCK_DIVISOR_MAX), 15);
    assert_eq!(settings_byte(Resolution::S160x120, 1), 0);
    assert_eq!(settings_byte(Resolution::S640x480, 1), 64);
    assert_eq!(settings_byte(Resolution::S640x480, 32), 64 + 15);
    assert_eq!(settings_byte(Resolution::S1600x1200, 10), 5 * 32 + 4);
    assert_eq!(settings_byte(Resolution::T1280x1024, 2), 7 * 32 + 0);
}

#[test]
fn sidebar_settings_compare_by_variant() {
    assert_eq!(Setting::ClockDivisor, Setting::ClockDivisor);
    assert_ne!(Setting::ClockDivisor, Setting::SendSettings);
    assert_eq!(
        Setting::SelectPort(Some(String::from("ttyUSB0"))),
        Setting::SelectPort(Some(String::from("ttyUSB0")))
    );
    assert_ne!(
        Setting::SelectPort(None),
        Setting::SelectPort(Some(String::from("ttyUSB0")))
    );
}
