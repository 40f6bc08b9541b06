use calendar_transform::model::{Error, Task};
use calendar_transform::transformer::{parse_calendar, transform, transform_calendar, try_transform};
use chrono::{NaiveDate, TimeZone, Utc};
use icalendar::{CalendarDateTime, Class, DatePerhapsTime};

fn event(uid: &str, summary: &str, start: &str, end: &str, modified: &str) -> String {
    format!(
        "BEGIN:VEVENT\r\nUID:{uid}\r\nSUMMARY:{summary}\r\nDESCRIPTION:Opis {uid}\r\nCLASS:PUBLIC\r\nLAST-MODIFIED:{modified}\r\nDTSTAMP:20221010T090000Z\r\nDTSTART:{start}\r\nDTEND:{end}\r\nCATEGORIES:Programiranje\r\nEND:VEVENT\r\n"
    )
}

fn calendar(events: &[String]) -> String {
    let mut s = String::from("BEGIN:VCALENDAR\r\nVERSION:2.0\r\nPRODID:-//Moodle Pty Ltd//NONSGML Moodle//EN\r\n");
    for e in events {
        s.push_str(e);
    }
    s.push_str("END:VCALENDAR\r\n");
    s
}

fn utc(y: i32, mo: u32, d: u32, h: u32, mi: u32, s: u32) -> DatePerhapsTime {
    DatePerhapsTime::DateTime(CalendarDateTime::Utc(Utc.with_ymd_and_hms(y, mo, d, h, mi, s).unwrap()))
}

fn sample() -> String {
    calendar(&[
        event("100@ucilnica.fri.uni-lj.si", "Naloga 1 se ODPRE", "20221012T100000Z", "20221012T100000Z", "20221001T080000Z"),
        event("101@ucilnica.fri.uni-lj.si", "Naloga 1 se zapre", "20221020T235900Z", "20221020T235900Z", "20221001T080000Z"),
        event("200@ucilnica.fri.uni-lj.si", "Kolokvij", "20221105T080000Z", "20221105T100000Z", "20221002T070000Z"),
    ])
}

fn tasks(s: String) -> Vec<Task> {
    transform(s).unwrap().tasks
}

#[test]
fn opener_and_closer_become_one_task() {
    let ts = tasks(sample());
    assert_eq!(ts.len(), 2);
    let t = &ts[0];
    assert_eq!(t.uid, "100@ucilnica.fri.uni-lj.si");
    assert_eq!(t.summary, "Naloga 1 se ODPRE");
    assert_eq!(t.description, "Opis 100@ucilnica.fri.uni-lj.si");
    assert_eq!(t.categories, "Programiranje");
    assert_eq!(t.start, utc(2022, 10, 12, 10, 0, 0));
    assert_eq!(t.end, utc(2022, 10, 20, 23, 59, 0));
    assert_eq!(t.due, utc(2022, 10, 20, 23, 59, 0));
    assert_eq!(t.timestamp, "20221010T090000Z");
    assert_eq!(t.class, Class::Public);
    assert_eq!(t.completed, None);
    assert_eq!(t.percent_complete, None);
}

#[test]
fn unpaired_event_starts_when_last_modified() {
    let ts = tasks(sample());
    let t = &ts[1];
    assert_eq!(t.uid, "200@ucilnica.fri.uni-lj.si");
    assert_eq!(t.start, utc(2022, 10, 2, 7, 0, 0));
    assert_eq!(t.end, utc(2022, 11, 5, 10, 0, 0));
    assert_eq!(t.due, t.end);
}

#[test]
fn opener_without_closer_is_kept_as_its_own_task() {
    let s = calendar(&[event("7@h", "Oddaja se odpre", "20221012T100000Z", "20221013T100000Z", "20221001T080000Z")]);
    let ts = tasks(s);
    assert_eq!(ts.len(), 1);
    assert_eq!(ts[0].uid, "7@h");
    assert_eq!(ts[0].start, utc(2022, 10, 1, 8, 0, 0));
}

#[test]
fn closer_found_anywhere_in_calendar() {
    let s = calendar(&[
        event("9@h", "Zapre", "20221020T100000Z", "20221021T100000Z", "20221001T080000Z"),
        event("8@h", "odpre", "20221012T100000Z", "20221013T100000Z", "20221001T080000Z"),
    ]);
    let ts = tasks(s);
    assert_eq!(ts.len(), 1);
    assert_eq!(ts[0].uid, "8@h");
    assert_eq!(ts[0].end, utc(2022, 10, 21, 10, 0, 0));
}

#[test]
fn last_modified_may_be_a_date_or_floating() {
    let s = calendar(&[
        event("1@h", "A", "20221012T100000Z", "20221013T100000Z", "20221001"),
        event("2@h", "B", "20221012T100000Z", "20221013T100000Z", "20221001T080000"),
    ]);
    let ts = tasks(s);
    assert_eq!(ts[0].start, DatePerhapsTime::Date(NaiveDate::from_ymd_opt(2022, 10, 1).unwrap()));
    assert_eq!(
        ts[1].start,
        DatePerhapsTime::DateTime(CalendarDateTime::Floating(
            NaiveDate::from_ymd_opt(2022, 10, 1).unwrap().and_hms_opt(8, 0, 0).unwrap()
        ))
    );
}

#[test]
fn unreadable_last_modified_is_an_error() {
    let s = calendar(&[event("1@h", "A", "20221012T100000Z", "20221013T100000Z", "yesterday")]);
    match transform(s) {
        Err(Error::RustError(m)) => assert_eq!(m, "Value does not look like a known DATE-TIME"),
        Ok(_) => panic!("expected an error"),
    }
}

#[test]
fn empty_calendar_gives_no_tasks() {
    assert_eq!(tasks(calendar(&[])).len(), 0);
    assert_eq!(tasks(String::new()).len(), 0);
}

#[test]
fn event_without_summary_would_panic() {
    let s = calendar(&[String::from(
        "BEGIN:VEVENT\r\nUID:1@h\r\nDTSTART:20221012T100000Z\r\nEND:VEVENT\r\n",
    )]);
    assert!(try_transform(s).is_none());
}

#[test]
fn opener_with_malformed_uid_would_panic() {
    let s = calendar(&[event("no-at-sign", "odpre", "20221012T100000Z", "20221013T100000Z", "20221001T080000Z")]);
    assert!(try_transform(s).is_none());
}

#[test]
fn parse_calendar_reads_components() {
    let cal = parse_calendar(&sample()).ok().unwrap();
    assert_eq!(cal.components.len(), 3);
    let t = transform_calendar(&cal).ok().unwrap();
    assert_eq!(t.tasks.len(), 2);
}

#[test]
fn every_task_is_due_when_it_ends_and_not_completed() {
    for t in tasks(sample()) {
        assert_eq!(t.due, t.end);
        assert!(t.completed.is_none());
        assert!(t.percent_complete.is_none());
    }
}

#[test]
fn paired_closer_is_not_repeated() {
    let ts = tasks(sample());
    assert!(ts.iter().all(|t| t.uid != "101@ucilnica.fri.uni-lj.si"));
}

#[test]
fn every_event_is_paired_or_a_task() {
    let ts = tasks(sample());
    let paired = ["100@ucilnica.fri.uni-lj.si", "101@ucilnica.fri.uni-lj.si"];
    for uid in ["100@ucilnica.fri.uni-lj.si", "101@ucilnica.fri.uni-lj.si", "200@ucilnica.fri.uni-lj.si"] {
        assert!(paired.contains(&uid) || ts.iter().any(|t| t.uid == uid));
    }
}

#[test]
fn parse_errors_carry_the_parser_message() {
    for s in ["BEGIN:VCALENDAR\r\nEND:VEVENT\r\n", "not a calendar at all", "BEGIN:VCALENDAR\r\nEND:VCALENDAR\r\n"] {
        let ours = parse_calendar(s);
        let theirs = s.parse::<icalendar::Calendar>();
        match (ours, theirs) {
            (Ok(a), Ok(b)) => assert_eq!(a, b),
            (Err(Error::RustError(m)), Err(n)) => {
                assert_eq!(m, n);
                match transform(String::from(s)) {
                    Err(Error::RustError(t)) => assert_eq!(t, n),
                    Ok(_) => panic!("expected an error"),
                }
            }
            _ => panic!("parse results differ for {s:?}"),
        }
    }
}

#[test]
fn component_that_is_not_an_event_would_panic() {
    let s = calendar(&[String::from("BEGIN:VVENUE\r\nUID:v@h\r\nEND:VVENUE\r\n")]);
    assert!(try_transform(s).is_none());
}

#[test]
fn todo_with_uid_is_skipped() {
    let s = calendar(&[
        String::from("BEGIN:VTODO\r\nUID:t@h\r\nSUMMARY:odpre\r\nEND:VTODO\r\n"),
        event("3@h", "C", "20221012T100000Z", "20221013T100000Z", "20221001T080000Z"),
    ]);
    let ts = tasks(s);
    assert_eq!(ts.len(), 1);
    assert_eq!(ts[0].uid, "3@h");
}

#[test]
fn pairs_come_first_then_own_items_in_order() {
    let s = calendar(&[
        event("1@h", "Predavanje", "20221010T100000Z", "20221010T120000Z", "20221001T080000Z"),
        event("11@h", "Druga se zapre", "20221030T100000Z", "20221030T110000Z", "20221001T080000Z"),
        event("5@h", "Prva se odpre", "20221012T100000Z", "20221012T110000Z", "20221001T080000Z"),
        event("3@h", "Vaje", "20221014T100000Z", "20221014T120000Z", "20221003T080000Z"),
        event("10@h", "Druga se odpre", "20221015T100000Z", "20221015T110000Z", "20221001T080000Z"),
        event("6@h", "Prva se zapre", "20221020T100000Z", "20221020T110000Z", "20221001T080000Z"),
    ]);
    let uids: Vec<String> = tasks(s).into_iter().map(|t| t.uid).collect();
    assert_eq!(uids, vec!["5@h", "10@h", "1@h", "3@h"]);
}
