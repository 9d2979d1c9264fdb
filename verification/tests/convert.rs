use time_convert::clock::{format_res_time, format_time, TimeInputError};
use time_convert::date::Date;
use time_convert::request::{build_date_time, json_escape, payload_json};
use time_convert::response::{display_of_result, process_response_body, ConversionResult};
use time_convert::ui::{before_time_display, initial_fields};

#[test]
fn normalize_plain_morning() {
    let r = format_time(false, "9".to_string(), "5".to_string());
    assert_eq!(r, Ok("09:05:00".to_string()));
}

#[test]
fn normalize_pm_adds_twelve() {
    let r = format_time(true, "9".to_string(), "5".to_string());
    assert_eq!(r, Ok("21:05:00".to_string()));
}

#[test]
fn normalize_noon_pm_remaps_to_midnight() {
    let r = format_time(true, "12".to_string(), "0".to_string());
    assert_eq!(r, Ok("00:00:00".to_string()));
}

#[test]
fn normalize_text_24_remaps_to_midnight() {
    let r = format_time(false, "24".to_string(), "30".to_string());
    assert_eq!(r, Ok("00:30:00".to_string()));
}

#[test]
fn normalize_keeps_padded_text() {
    let r = format_time(false, "09".to_string(), "05".to_string());
    assert_eq!(r, Ok("09:05:00".to_string()));
}

#[test]
fn normalize_pm_hour_past_twelve_overflows_past_24() {
    // No upper bound check before the 24-to-00 remap: 13 PM becomes 25.
    let r = format_time(true, "13".to_string(), "5".to_string());
    assert_eq!(r, Ok("25:05:00".to_string()));
}

#[test]
fn normalize_rejects_non_numeric_hour() {
    let r = format_time(false, "ab".to_string(), "5".to_string());
    assert_eq!(r, Err(TimeInputError::InvalidHour));
}

#[test]
fn normalize_rejects_non_numeric_hour_pm() {
    let r = format_time(true, "x".to_string(), "5".to_string());
    assert_eq!(r, Err(TimeInputError::InvalidHour));
}

#[test]
fn normalize_rejects_empty_hour() {
    let r = format_time(false, "".to_string(), "5".to_string());
    assert_eq!(r, Err(TimeInputError::InvalidHour));
}

#[test]
fn normalize_rejects_huge_pm_hour() {
    let r = format_time(true, "4294967290".to_string(), "00".to_string());
    assert_eq!(r, Err(TimeInputError::InvalidHour));
}

#[test]
fn normalize_rejects_non_numeric_minute() {
    let r = format_time(false, "9".to_string(), "5a".to_string());
    assert_eq!(r, Err(TimeInputError::InvalidMinute));
}

#[test]
fn normalize_rejects_empty_minute() {
    let r = format_time(true, "9".to_string(), "".to_string());
    assert_eq!(r, Err(TimeInputError::InvalidMinute));
}

#[test]
fn display_time_midnight_keeps_pm_label() {
    assert_eq!(format_res_time("00:30".to_string()), "12:30 PM");
}

#[test]
fn display_time_noon_keeps_am_label() {
    assert_eq!(format_res_time("12:15".to_string()), "12:15 AM");
}

#[test]
fn display_time_afternoon() {
    assert_eq!(format_res_time("15:45".to_string()), "3:45 PM");
}

#[test]
fn display_time_morning_drops_leading_zero() {
    assert_eq!(format_res_time("05:00".to_string()), "5:00 AM");
}

#[test]
fn date_renders_iso_and_slash_forms() {
    let d = Date::new(2024, 1, 1).unwrap();
    assert_eq!(d.iso_string(), "2024-01-01");
    assert_eq!(d.slash_display(), "01/01");
}

#[test]
fn date_rejects_out_of_range_fields() {
    assert!(Date::new(0, 1, 1).is_none());
    assert!(Date::new(2024, 13, 1).is_none());
    assert!(Date::new(2024, 1, 0).is_none());
    assert!(Date::new(2024, 1, 32).is_none());
    assert!(Date::new(10000, 1, 1).is_none());
}

#[test]
fn outbound_date_time_for_noon_scenario() {
    let d = Date::new(2024, 1, 1).unwrap();
    let time = format_time(false, "12".to_string(), "00".to_string()).unwrap();
    assert_eq!(time, "12:00:00");
    let date_time = build_date_time(&d, &time);
    assert_eq!(date_time, "2024-01-01 12:00:00");
}

#[test]
fn payload_holds_all_four_fields() {
    let body = payload_json("America/Los_Angeles", "2024-01-01 12:00:00", "Asia/Seoul");
    assert_eq!(
        body,
        "{\"fromTimeZone\":\"America/Los_Angeles\",\"dateTime\":\"2024-01-01 12:00:00\",\
         \"toTimeZone\":\"Asia/Seoul\",\"dstAmbiguity\":\"\"}"
    );
}

#[test]
fn payload_escapes_special_characters() {
    assert_eq!(json_escape("a\"b\\c\n"), "a\\\"b\\\\c\\u000a");
    assert_eq!(json_escape("plain"), "plain");
}

#[test]
fn payload_is_valid_json_with_expected_fields() {
    let body = payload_json("America/Los_Angeles", "2024-01-01 12:00:00", "Asia/Seoul");
    let v: serde_json::Value = serde_json::from_str(&body).unwrap();
    assert_eq!(v["fromTimeZone"], "America/Los_Angeles");
    assert_eq!(v["dateTime"], "2024-01-01 12:00:00");
    assert_eq!(v["toTimeZone"], "Asia/Seoul");
    assert_eq!(v["dstAmbiguity"], "");
}

#[test]
fn successful_response_reaches_the_display() {
    let body = "{\"conversionResult\":{\"date\":\"2024-01-02\",\"time\":\"05:00:00\"}}";
    let res = process_response_body(body);
    assert_eq!(res.date, "2024-01-02");
    assert_eq!(res.time, "05:00:00");
    let shown = display_of_result(&res);
    assert_eq!(shown.date, "01-02");
    assert_eq!(shown.time, "5:00 AM");
}

#[test]
fn transport_failure_shows_sentinel_pair() {
    let res = ConversionResult::error_result();
    let shown = display_of_result(&res);
    assert_eq!(shown.date, "Error");
    assert_eq!(shown.time, "Please try again!");
}

#[test]
fn empty_body_becomes_sentinel() {
    let res = process_response_body("");
    assert_eq!(res.date, "Error");
    assert_eq!(res.time, "Please try again!");
}

#[test]
fn malformed_body_becomes_sentinel() {
    let res = process_response_body("not json at all");
    assert_eq!(res.date, "Error");
    assert_eq!(res.time, "Please try again!");
}

#[test]
fn body_without_result_field_becomes_sentinel() {
    let res = process_response_body("{}");
    assert_eq!(res.date, "Error");
    assert_eq!(res.time, "Please try again!");
}

#[test]
fn non_string_fields_become_sentinel() {
    let res = process_response_body("{\"conversionResult\":{\"date\":7,\"time\":true}}");
    assert_eq!(res.date, "Error");
    assert_eq!(res.time, "Please try again!");
}

#[test]
fn misshapen_result_strings_show_sentinel() {
    let res = process_response_body(
        "{\"conversionResult\":{\"date\":\"02/01/2024\",\"time\":\"5 o'clock\"}}",
    );
    assert_eq!(res.date, "02/01/2024");
    assert_eq!(res.time, "5 o'clock");
    let shown = display_of_result(&res);
    assert_eq!(shown.date, "Error");
    assert_eq!(shown.time, "Please try again!");
}

#[test]
fn fresh_session_defaults() {
    let f = initial_fields();
    assert_eq!(f.hours, "12");
    assert_eq!(f.mins, "00");
    assert_eq!(f.from, "America/Los_Angeles");
    assert_eq!(f.to, "Asia/Seoul");
    assert_eq!(f.res_date, "N/A");
    assert_eq!(f.res_time, "N/A");
    assert!(!f.pm);
}

#[test]
fn before_panel_time_string() {
    assert_eq!(before_time_display("12", "00", false), "12:00 AM");
    assert_eq!(before_time_display("9", "5", true), "9:5 PM");
}
