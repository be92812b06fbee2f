use luftraum::decode::{decode_message_sbs, split_fields};
use luftraum::parse::{parse_fixed4, parse_i32, parse_usize};
use luftraum::sbs::{SbsDate, SbsTime, FIXED4_SCALE};

const POSITION_LINE: &str =
    "MSG,3,1,1,4CA1C2,1,2024/01/01,12:00:00.000,2024/01/01,12:00:00.000,,35000,,,53.5500,9.9900,,,,,,0";

#[test]
fn test_decode_valid_position_line() {
    let m = decode_message_sbs(POSITION_LINE).expect("line must decode");
    assert_eq!(m.message_type, "MSG");
    assert_eq!(m.transmission_type, 3);
    assert_eq!(m.hex_ident, "4CA1C2");
    assert_eq!(m.session_id.as_deref(), Some("1"));
    assert_eq!(m.aircraft_id.as_deref(), Some("1"));
    assert_eq!(m.flight_id.as_deref(), Some("1"));
    assert_eq!(m.generated_date, SbsDate { year: 2024, month: 1, day: 1 });
    assert_eq!(
        m.generated_time,
        SbsTime { hour: 12, minute: 0, second: 0, nanosecond: 0 }
    );
    assert_eq!(m.logged_date, SbsDate { year: 2024, month: 1, day: 1 });
    assert_eq!(m.call_sign.as_deref(), Some(""));
    assert_eq!(m.altitude, Some(350_000_000));
    assert_eq!(m.ground_speed, None);
    assert_eq!(m.track, None);
    assert_eq!(m.latitude, Some(535_500));
    assert_eq!(m.longitude, Some(99_900));
    assert_eq!(m.vertical_rate, None);
    assert_eq!(m.squawk, None);
    assert_eq!(m.alert, Some(false));
    assert_eq!(m.emergency, Some(false));
    assert_eq!(m.spi, Some(false));
    assert_eq!(m.is_on_ground, Some(false));
}

#[test]
fn test_decode_deterministic() {
    let a = decode_message_sbs(POSITION_LINE);
    let b = decode_message_sbs(POSITION_LINE);
    assert_eq!(a, b);
    assert!(a.is_some());
}

#[test]
fn test_reject_wrong_field_count() {
    // 21 fields
    let short = "MSG,3,1,1,4CA1C2,1,2024/01/01,12:00:00.000,2024/01/01,12:00:00.000,,35000,,,53.5500,9.9900,,,,,0";
    assert!(decode_message_sbs(short).is_none());
    // 23 fields
    let long = format!("{},extra", POSITION_LINE);
    assert!(decode_message_sbs(&long).is_none());
}

#[test]
fn test_reject_empty_and_long_lines() {
    assert!(decode_message_sbs("").is_none());
    let mut long = String::from(POSITION_LINE);
    while long.len() < 255 {
        long.push('0');
    }
    assert!(decode_message_sbs(&long).is_none());
}

#[test]
fn test_reject_non_ascii() {
    let line = POSITION_LINE.replace("MSG", "MSÄ");
    assert!(decode_message_sbs(&line).is_none());
}

#[test]
fn test_reject_control_characters() {
    let tab = POSITION_LINE.replace("MSG", "MS\tG");
    assert!(decode_message_sbs(&tab).is_none());
    let stray = POSITION_LINE.replace("35000", "35\u{1}000");
    assert!(decode_message_sbs(&stray).is_none());
    let trailing_cr = format!("{}\r", POSITION_LINE);
    assert!(decode_message_sbs(&trailing_cr).is_none());
}

#[test]
fn test_reject_bad_transmission_type() {
    let line = POSITION_LINE.replace("MSG,3,", "MSG,x,");
    assert!(decode_message_sbs(&line).is_none());
}

#[test]
fn test_reject_bad_dates_and_times() {
    let bad_month = POSITION_LINE.replace("2024/01/01,12:00:00.000,2024/01/01", "2024/13/01,12:00:00.000,2024/01/01");
    assert!(decode_message_sbs(&bad_month).is_none());
    let bad_day = POSITION_LINE.replacen("2024/01/01", "2024/09/31", 1);
    assert!(decode_message_sbs(&bad_day).is_none());
    let bad_hour = POSITION_LINE.replacen("12:00:00.000", "24:00:00.000", 1);
    assert!(decode_message_sbs(&bad_hour).is_none());
    let truncated_date = POSITION_LINE.replacen("2024/01/01", "2024/01", 1);
    assert!(decode_message_sbs(&truncated_date).is_none());
}

#[test]
fn test_time_fraction_is_kept() {
    let line = POSITION_LINE.replacen("12:00:00.000", "08:59:59.123", 1);
    let m = decode_message_sbs(&line).expect("line must decode");
    assert_eq!(
        m.generated_time,
        SbsTime { hour: 8, minute: 59, second: 59, nanosecond: 123_000_000 }
    );
}

#[test]
fn test_numeric_fields_degrade_to_absent() {
    let line = POSITION_LINE.replace(",35000,", ",abc,");
    let m = decode_message_sbs(&line).expect("line must still decode");
    assert_eq!(m.altitude, None);
    assert_eq!(m.latitude, Some(535_500));
}

#[test]
fn test_flag_fields() {
    // alert=1, emergency=0, spi=junk, on-ground=1
    let line =
        "MSG,6,1,1,4CA1C2,1,2024/01/01,12:00:00.000,2024/01/01,12:00:00.000,,,,,,,,7700,1,0,junk,1";
    let m = decode_message_sbs(line).expect("line must decode");
    assert_eq!(m.alert, Some(true));
    assert_eq!(m.emergency, Some(false));
    assert_eq!(m.spi, Some(false));
    assert_eq!(m.is_on_ground, Some(true));
    assert_eq!(m.squawk, Some(7700));
}

#[test]
fn test_split_fields() {
    let parts = split_fields("a,b,,c,");
    let expect: Vec<String> = vec!["a".into(), "b".into(), "".into(), "c".into(), "".into()];
    assert_eq!(parts, expect);
    assert_eq!(split_fields(""), vec![String::new()]);
    assert_eq!(split_fields("plain"), vec!["plain".to_string()]);
}

#[test]
fn test_parse_usize() {
    assert_eq!(parse_usize("0"), Some(0));
    assert_eq!(parse_usize("3"), Some(3));
    assert_eq!(parse_usize("+7"), Some(7));
    assert_eq!(parse_usize("18446744073709551615"), Some(usize::MAX));
    assert_eq!(parse_usize("18446744073709551616"), None);
    assert_eq!(parse_usize(""), None);
    assert_eq!(parse_usize("+"), None);
    assert_eq!(parse_usize("-1"), None);
    assert_eq!(parse_usize("1 "), None);
    assert_eq!(parse_usize("0x10"), None);
}

#[test]
fn test_parse_i32() {
    assert_eq!(parse_i32("7700"), Some(7700));
    assert_eq!(parse_i32("-42"), Some(-42));
    assert_eq!(parse_i32("+42"), Some(42));
    assert_eq!(parse_i32("2147483647"), Some(i32::MAX));
    assert_eq!(parse_i32("2147483648"), None);
    assert_eq!(parse_i32("-2147483648"), Some(i32::MIN));
    assert_eq!(parse_i32("-2147483649"), None);
    assert_eq!(parse_i32("--1"), None);
    assert_eq!(parse_i32(""), None);
}

#[test]
fn test_parse_fixed4() {
    assert_eq!(parse_fixed4("53.5500"), Some(535_500));
    assert_eq!(535_500 as f64 / FIXED4_SCALE as f64, 53.55);
    assert_eq!(parse_fixed4("9.9900"), Some(99_900));
    assert_eq!(parse_fixed4("35000"), Some(350_000_000));
    assert_eq!(parse_fixed4("-1.5"), Some(-15_000));
    assert_eq!(parse_fixed4("+2"), Some(20_000));
    assert_eq!(parse_fixed4("0.00005"), Some(0));
    assert_eq!(parse_fixed4("1."), Some(10_000));
    assert_eq!(parse_fixed4(".5"), Some(5_000));
    assert_eq!(parse_fixed4("-.5"), Some(-5_000));
    assert_eq!(parse_fixed4("."), None);
    assert_eq!(parse_fixed4(""), None);
    assert_eq!(parse_fixed4("1e3"), None);
    assert_eq!(parse_fixed4("1.2.3"), None);
    assert_eq!(parse_fixed4("12a"), None);
}
