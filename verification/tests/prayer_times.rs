use show_prayer_times::date::Date;
use show_prayer_times::date::format_date;
use show_prayer_times::date::today_local;
use show_prayer_times::json::get_prayer_timings;
use show_prayer_times::json::get_string_value;
use show_prayer_times::json::parse_text;
use show_prayer_times::json::JsonValue;
use show_prayer_times::present::show_prayer_times;
use show_prayer_times::present::sort_timings;
use show_prayer_times::present::FetchError;
use show_prayer_times::request::build_request_url;
use show_prayer_times::text::format_padded_u32;
use show_prayer_times::text::str_eq_str;
use show_prayer_times::text::str_lex_le;
use show_prayer_times::text::u32_to_string;

fn date(day: u32, month: u32, year: i32) -> Date {
    Date::from_parts(day, month, year).unwrap()
}

fn pairs(v: &[(&str, &str)]) -> Vec<(String, String)> {
    v.iter().map(|(n, t)| (n.to_string(), t.to_string())).collect()
}

#[test]
fn url_matches_template() {
    let url = build_request_url(&date(5, 1, 2024), "30.04442", "31.23571");
    assert_eq!(
        url,
        "http://api.aladhan.com/v1/timings/05-01-2024?latitude=30.04442&longitude=31.23571&method=2"
    );
}

#[test]
fn url_passes_coordinates_verbatim() {
    let url = build_request_url(&date(31, 12, 1999), "not-a-number", "");
    assert_eq!(
        url,
        "http://api.aladhan.com/v1/timings/31-12-1999?latitude=not-a-number&longitude=&method=2"
    );
}

#[test]
fn date_is_zero_padded() {
    assert_eq!(format_date(&date(1, 2, 800)), "01-02-0800");
    assert_eq!(format_date(&date(28, 11, 2026)), "28-11-2026");
}

#[test]
fn date_from_parts_rejects_negative_years() {
    assert!(Date::from_parts(1, 1, -44).is_none());
    assert!(Date::from_parts(1, 1, 0).is_some());
}

#[test]
fn decimal_formatting() {
    assert_eq!(u32_to_string(0), "0");
    assert_eq!(u32_to_string(4032009), "4032009");
    assert_eq!(format_padded_u32(7, 2), "07");
    assert_eq!(format_padded_u32(2026, 4), "2026");
    assert_eq!(format_padded_u32(123456, 4), "123456");
}

#[test]
fn today_local_is_a_calendar_date() {
    let (day, month, _year) = today_local();
    assert!((1..=31).contains(&day));
    assert!((1..=12).contains(&month));
}

#[test]
fn string_comparison() {
    assert!(str_lex_le("05:00", "12:30"));
    assert!(!str_lex_le("12:30", "05:00"));
    assert!(str_lex_le("05:00", "05:00"));
    assert!(str_lex_le("05:0", "05:00"));
    assert!(!str_lex_le("05:00", "05:0"));
    assert!(str_eq_str("Fajr", "Fajr"));
    assert!(!str_eq_str("Fajr", "Dhuhr"));
    assert!(!str_eq_str("Fajr", "Faj"));
}

#[test]
fn parse_rejects_invalid_json() {
    assert!(parse_text("").is_none());
    assert!(parse_text("{\"data\":").is_none());
    assert!(parse_text("nonsense").is_none());
}

#[test]
fn extractor_empty_for_non_object_document() {
    let v = parse_text("[1, 2, 3]").unwrap();
    assert!(get_prayer_timings(&v).is_empty());
    let v = parse_text("5").unwrap();
    assert!(get_prayer_timings(&v).is_empty());
}

#[test]
fn extractor_empty_without_data_field() {
    let v = parse_text("{\"code\": 200, \"status\": \"OK\"}").unwrap();
    assert!(get_prayer_timings(&v).is_empty());
}

#[test]
fn extractor_empty_for_non_object_data() {
    let v = parse_text("{\"data\": 17}").unwrap();
    assert!(get_prayer_timings(&v).is_empty());
    let v = parse_text("{\"data\": [\"timings\"]}").unwrap();
    assert!(get_prayer_timings(&v).is_empty());
}

#[test]
fn extractor_empty_without_timings_field() {
    let v = parse_text("{\"data\": {\"date\": \"05-01-2024\"}}").unwrap();
    assert!(get_prayer_timings(&v).is_empty());
}

#[test]
fn extractor_empty_for_non_object_timings() {
    let v = parse_text("{\"data\": {\"timings\": [\"05:00\"]}}").unwrap();
    assert!(get_prayer_timings(&v).is_empty());
    let v = parse_text("{\"data\": {\"timings\": \"05:00\"}}").unwrap();
    assert!(get_prayer_timings(&v).is_empty());
}

#[test]
fn extractor_returns_both_pairs() {
    let v = parse_text("{\"data\":{\"timings\":{\"Fajr\":\"05:00\",\"Dhuhr\":\"12:30\"}}}")
        .unwrap();
    let list = get_prayer_timings(&v);
    assert_eq!(list.len(), 2);
    assert!(list.contains(&("Fajr".to_string(), "05:00".to_string())));
    assert!(list.contains(&("Dhuhr".to_string(), "12:30".to_string())));
}

#[test]
fn non_string_timings_coerce_to_empty_strings() {
    let v = parse_text(
        "{\"data\":{\"timings\":{\"Asr\":{\"h\":15},\"Isha\":19,\"Maghrib\":true,\"Sunset\":null}}}",
    )
    .unwrap();
    let list = get_prayer_timings(&v);
    assert_eq!(list.len(), 4);
    for (_, time) in &list {
        assert_eq!(time, "");
    }
}

#[test]
fn string_value_of_a_string_is_itself() {
    let v = parse_text("\"05:12 (EET)\"").unwrap();
    assert_eq!(get_string_value(&v), "05:12 (EET)");
    assert_eq!(get_string_value(&JsonValue::Other), "");
}

#[test]
fn presenter_sorts_by_time_string() {
    let sorted = sort_timings(pairs(&[("Dhuhr", "12:30"), ("Fajr", "05:00")]));
    assert_eq!(sorted, pairs(&[("Fajr", "05:00"), ("Dhuhr", "12:30")]));
}

#[test]
fn presenter_sort_is_stable() {
    let sorted = sort_timings(pairs(&[
        ("Second", "10:00"),
        ("First", "10:00"),
        ("Early", "01:00"),
    ]));
    assert_eq!(
        sorted,
        pairs(&[("Early", "01:00"), ("Second", "10:00"), ("First", "10:00")])
    );
}

#[test]
fn failure_message_is_uniform() {
    assert_eq!(FetchError::Transport.message(), "Could not fetch prayer times!");
    assert_eq!(FetchError::Parse.message(), "Could not fetch prayer times!");
}

#[test]
fn invalid_body_reports_parse_failure() {
    let r = show_prayer_times("definitely not json", &date(9, 10, 2026));
    match r {
        Ok(_) => panic!("an invalid body must not render"),
        Err(e) => assert!(matches!(e, FetchError::Parse)),
    }
}

#[test]
fn well_formed_body_renders_aligned_report() {
    let body = "{\"data\":{\"timings\":{\"Fajr\":\"05:12 (EET)\",\"Sunrise\":\"06:31 (EET)\"}}}";
    let out = show_prayer_times(body, &date(9, 10, 2026)).unwrap_or_else(|_| {
        panic!("a well-formed body must render");
    });
    assert_eq!(
        out,
        "\nPrayer times for 09-10-2026:\n\n          Fajr : 05:12 (EET)\n       Sunrise : 06:31 (EET)\n\n"
    );
}

#[test]
fn shape_mismatch_renders_empty_report() {
    let out = show_prayer_times("{\"code\": 404}", &date(9, 10, 2026)).unwrap_or_else(|_| {
        panic!("valid JSON must render");
    });
    assert_eq!(out, "\nPrayer times for 09-10-2026:\n\n\n");
}

#[test]
fn long_names_are_not_truncated() {
    let sorted = sort_timings(pairs(&[("Lastthirdofthenight", "02:46")]));
    let out = show_prayer_times(
        "{\"data\":{\"timings\":{\"Lastthirdofthenight\":\"02:46\"}}}",
        &date(1, 1, 2024),
    )
    .unwrap();
    assert_eq!(sorted.len(), 1);
    assert_eq!(
        out,
        "\nPrayer times for 01-01-2024:\n\n    Lastthirdofthenight : 02:46\n\n"
    );
}
