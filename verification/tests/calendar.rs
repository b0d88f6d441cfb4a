use chatbot::calendar::{epoch_days_to_ymd, iso_utc, push_clock, push_date};

#[test]
fn epoch_day_zero_is_new_year_1970() {
    assert_eq!(epoch_days_to_ymd(0), (1970, 1, 1));
}

#[test]
fn known_dates() {
    assert_eq!(epoch_days_to_ymd(59), (1970, 3, 1));
    assert_eq!(epoch_days_to_ymd(10957), (2000, 1, 1));
    assert_eq!(epoch_days_to_ymd(11016), (2000, 2, 29));
    assert_eq!(epoch_days_to_ymd(19782), (2024, 2, 29));
    assert_eq!(epoch_days_to_ymd(19783), (2024, 3, 1));
    assert_eq!(epoch_days_to_ymd(20088), (2024, 12, 31));
}

#[test]
fn dates_and_clock_are_zero_padded() {
    let mut s = String::new();
    push_date(&mut s, 10957);
    assert_eq!(s, "2000-01-01");
    let mut c = String::new();
    push_clock(&mut c, 3 * 3600 + 4 * 60 + 5);
    assert_eq!(c, "03:04:05");
}

#[test]
fn iso_timestamps() {
    assert_eq!(iso_utc(0), "1970-01-01T00:00:00Z");
    assert_eq!(iso_utc(1_700_000_000), "2023-11-14T22:13:20Z");
}
