use calendar_transform::text::{decimal_string, lowercase_contains, parse_unsigned_str, split_once_str};
use calendar_transform::transformer::{next_uid, next_uid_checked, try_from};
use chrono::{NaiveDate, TimeZone, Utc};
use icalendar::{CalendarDateTime, DatePerhapsTime};

#[test]
fn next_uid_keeps_rest_after_first_at() {
    assert_eq!(next_uid("7@a@b"), "8@a@b");
    assert_eq!(next_uid("+7@x"), "8@x");
    assert_eq!(next_uid("0099@x"), "100@x");
}

#[test]
fn next_uid_refuses_what_would_panic() {
    assert_eq!(next_uid_checked("no-at"), None);
    assert_eq!(next_uid_checked("abc@x"), None);
    assert_eq!(next_uid_checked("@x"), None);
    assert_eq!(next_uid_checked(&format!("{}@x", usize::MAX)), None);
    assert_eq!(next_uid_checked(&format!("{}@x", usize::MAX - 1)), Some(format!("{}@x", usize::MAX)));
}

#[test]
fn parse_unsigned_like_std() {
    for s in ["", "+", "-1", "12a", "256", "+255", "0012", "255", "00000000000000000000000001"] {
        assert_eq!(parse_unsigned_str(s, 255), s.parse::<u8>().ok().map(|v| v as usize), "{s}");
    }
    assert_eq!(parse_unsigned_str("18446744073709551616", usize::MAX), None);
}

#[test]
fn decimal_round_trip() {
    for n in [0usize, 9, 10, 1234, usize::MAX] {
        let s = decimal_string(n);
        assert_eq!(s, n.to_string());
        assert_eq!(parse_unsigned_str(&s, usize::MAX), Some(n));
    }
}

#[test]
fn split_at_first_separator() {
    assert_eq!(split_once_str("a;b;c", ';'), Some(("a", "b;c")));
    assert_eq!(split_once_str("abc", ';'), None);
    assert_eq!(split_once_str("čšž;ž", ';'), Some(("čšž", "ž")));
}

#[test]
fn opener_word_ignores_ascii_case() {
    assert!(lowercase_contains("Naloga se ODPRE", "odpre"));
    assert!(!lowercase_contains("Naloga se zapre", "odpre"));
    assert!(!lowercase_contains("odp", "odpre"));
}

#[test]
fn try_from_reads_three_forms() {
    assert_eq!(
        try_from("20221012T100000Z"),
        Ok(DatePerhapsTime::DateTime(CalendarDateTime::Utc(Utc.with_ymd_and_hms(2022, 10, 12, 10, 0, 0).unwrap())))
    );
    assert_eq!(try_from("20221012"), Ok(DatePerhapsTime::Date(NaiveDate::from_ymd_opt(2022, 10, 12).unwrap())));
    assert_eq!(
        try_from("20221012T100000"),
        Ok(DatePerhapsTime::DateTime(CalendarDateTime::Floating(
            NaiveDate::from_ymd_opt(2022, 10, 12).unwrap().and_hms_opt(10, 0, 0).unwrap()
        )))
    );
    assert_eq!(try_from("garbage"), Err("Value does not look like a known DATE-TIME"));
}
