use ltc_bridge::timecode::{format_timecode, parse_timecode, TimecodeFrame};

fn frame(hours: u8, mins: u8, secs: u8, frames: u8) -> TimecodeFrame {
    TimecodeFrame { hours, mins, secs, frames }
}

#[test]
fn formats_two_digit_fields() {
    assert_eq!(format_timecode(1, 2, 3, 4), "01:02:03:04");
    assert_eq!(format_timecode(12, 34, 56, 23), "12:34:56:23");
    assert_eq!(format_timecode(0, 0, 0, 0), "00:00:00:00");
}

#[test]
fn formats_three_digit_fields_unpadded() {
    assert_eq!(format_timecode(100, 5, 255, 0), "100:05:255:00");
}

#[test]
fn frame_to_text_matches_format() {
    assert_eq!(frame(23, 59, 59, 29).to_text(), "23:59:59:29");
}

#[test]
fn parses_padded_timecode() {
    assert_eq!(parse_timecode("01:02:03:04"), Some(frame(1, 2, 3, 4)));
}

#[test]
fn parses_unpadded_and_plus_signed_fields() {
    assert_eq!(parse_timecode("1:2:3:4"), Some(frame(1, 2, 3, 4)));
    assert_eq!(parse_timecode("+1:02:03:004"), Some(frame(1, 2, 3, 4)));
    assert_eq!(parse_timecode("255:0:0:255"), Some(frame(255, 0, 0, 255)));
}

#[test]
fn rejects_wrong_field_count() {
    assert_eq!(parse_timecode("01:02:03"), None);
    assert_eq!(parse_timecode("01:02:03:04:05"), None);
    assert_eq!(parse_timecode(""), None);
    assert_eq!(parse_timecode("01020304"), None);
}

#[test]
fn rejects_bad_fields() {
    assert_eq!(parse_timecode("01:02:03:256"), None);
    assert_eq!(parse_timecode("01:02:03:xx"), None);
    assert_eq!(parse_timecode("01::03:04"), None);
    assert_eq!(parse_timecode(" 01:02:03:04"), None);
    assert_eq!(parse_timecode("01:02:03:04 "), None);
    assert_eq!(parse_timecode("-1:02:03:04"), None);
    assert_eq!(parse_timecode("+:02:03:04"), None);
    assert_eq!(parse_timecode("1000:02:03:04"), None);
}

#[test]
fn text_round_trip() {
    for &(h, m, s, f) in &[(0u8, 0u8, 0u8, 0u8), (1, 1, 5, 0), (9, 10, 99, 100), (255, 255, 255, 255)] {
        let text = format_timecode(h, m, s, f);
        assert_eq!(parse_timecode(&text), Some(frame(h, m, s, f)));
    }
}
