use calendar_transform::model::TaskCalendar;
use calendar_transform::transformer::transform;
use chrono::{TimeZone, Utc};
use icalendar::{Component, EventLike};

fn sample() -> String {
    let ev = |uid: &str, summary: &str, start: &str, end: &str| {
        format!(
            "BEGIN:VEVENT\r\nUID:{uid}\r\nSUMMARY:{summary}\r\nDESCRIPTION:Opis\r\nCLASS:PRIVATE\r\nLAST-MODIFIED:20221001T080000Z\r\nDTSTAMP:20221010T090000Z\r\nDTSTART:{start}\r\nDTEND:{end}\r\nCATEGORIES:Predmet\r\nEND:VEVENT\r\n"
        )
    };
    format!(
        "BEGIN:VCALENDAR\r\nVERSION:2.0\r\n{}{}{}END:VCALENDAR\r\n",
        ev("10@h", "Kviz se odpre", "20221012T100000Z", "20221012T100000Z"),
        ev("11@h", "Kviz se zapre", "20221014T100000Z", "20221014T100000Z"),
        ev("30@h", "Predavanje", "20221015T100000Z", "20221015T120000Z"),
    )
}

/// The calendar that `icalendar` itself writes for the same to-do items.
fn icalendar_text(tasks: &TaskCalendar) -> String {
    let mut cal = icalendar::Calendar::new();
    for t in &tasks.tasks {
        let mut todo = icalendar::Todo::new();
        #[allow(deprecated)]
        let stamp = Utc.datetime_from_str(&t.timestamp, "%Y%m%dT%H%M%SZ").unwrap();
        todo.summary(&t.summary)
            .add_multi_property("CATEGORIES", &t.categories)
            .description(&t.description)
            .starts(t.start.clone())
            .ends(t.end.clone())
            .due(t.due.clone())
            .uid(&t.uid)
            .timestamp(stamp)
            .class(t.class);
        if let Some(c) = &t.completed {
            #[allow(deprecated)]
            let done = Utc.datetime_from_str(c, "%Y%m%dT%H%M%SZ").unwrap();
            todo.completed(done);
        }
        if let Some(p) = t.percent_complete {
            todo.percent_complete(p);
        }
        cal.push(todo.done());
    }
    cal.to_string()
}

#[test]
fn to_ics_matches_icalendar_rendering() {
    let tasks = transform(sample()).unwrap();
    assert_eq!(tasks.len(), 2);
    assert_eq!(tasks.to_ics(), icalendar_text(&tasks));
}

#[test]
fn to_ics_of_empty_calendar() {
    let tasks = TaskCalendar { tasks: Vec::new() };
    assert_eq!(
        tasks.to_ics(),
        "BEGIN:VCALENDAR\r\nVERSION:2.0\r\nPRODID:ICALENDAR-RS\r\nCALSCALE:GREGORIAN\r\nEND:VCALENDAR\r\n"
    );
    assert_eq!(tasks.to_ics(), icalendar::Calendar::new().to_string());
}

#[test]
fn to_ics_with_state_matches_icalendar_rendering() {
    let mut tasks = transform(sample()).unwrap();
    assert!(tasks.try_apply_state(0, "2023-01-05T10:00:00Z;75"));
    let text = tasks.to_ics();
    assert_eq!(text, icalendar_text(&tasks));
    assert!(text.contains("COMPLETED:20230105T100000Z\r\n"));
    assert!(text.contains("PERCENT-COMPLETE:75\r\n"));
}

#[test]
fn to_ics_text_parses_back_as_todos() {
    let tasks = transform(sample()).unwrap();
    let parsed: icalendar::Calendar = tasks.to_ics().parse().unwrap();
    assert_eq!(parsed.components.len(), 2);
    let uids: Vec<&str> = parsed.components.iter().filter_map(|c| c.as_todo()).filter_map(|t| t.get_uid()).collect();
    assert_eq!(uids, vec!["10@h", "30@h"]);
}

#[test]
fn todo_properties_map_task_fields() {
    let mut tasks = transform(sample()).unwrap();
    assert!(tasks.try_apply_state(0, "2023-01-05T10:00:00Z;75"));
    let (props, multi) = calendar_transform::render::todo_properties(&tasks.tasks[0]);
    let got: Vec<(String, Vec<(String, String)>, String)> =
        props.iter().map(|p| (p.name.clone(), p.params.clone(), p.value.clone())).collect();
    let plain = |n: &str, v: &str| (n.to_string(), Vec::new(), v.to_string());
    assert_eq!(
        got,
        vec![
            plain("SUMMARY", "Kviz se odpre"),
            plain("DESCRIPTION", "Opis"),
            plain("DTSTART", "20221012T100000Z"),
            plain("DTEND", "20221014T100000Z"),
            plain("DUE", "20221014T100000Z"),
            plain("UID", "10@h"),
            plain("DTSTAMP", "20221010T090000Z"),
            plain("CLASS", "PRIVATE"),
            plain("COMPLETED", "20230105T100000Z"),
            plain("PERCENT-COMPLETE", "75"),
        ]
    );
    assert_eq!(multi.len(), 1);
    assert_eq!((multi[0].name.as_str(), multi[0].value.as_str()), ("CATEGORIES", "Predmet"));
}

#[test]
fn date_properties_carry_their_parameter() {
    let s = "BEGIN:VCALENDAR\r\nBEGIN:VEVENT\r\nUID:1@h\r\nSUMMARY:S\r\nDESCRIPTION:line one\\nline two\r\nCLASS:PUBLIC\r\nLAST-MODIFIED:20221001\r\nDTSTAMP:20221010T090000Z\r\nDTSTART;VALUE=DATE:20221012\r\nDTEND;TZID=Europe/Ljubljana:20221013T100000\r\nCATEGORIES:C\r\nEND:VEVENT\r\nEND:VCALENDAR\r\n";
    let tasks = transform(String::from(s)).unwrap();
    let (props, _) = calendar_transform::render::todo_properties(&tasks.tasks[0]);
    let find = |n: &str| props.iter().find(|p| p.name == n).unwrap();
    assert_eq!(find("DTSTART").params, vec![("VALUE".to_string(), "DATE".to_string())]);
    assert_eq!(find("DTSTART").value, "20221001");
    assert_eq!(find("DTEND").params, vec![("TZID".to_string(), "Europe/Ljubljana".to_string())]);
    assert_eq!(find("DUE").value, "20221013T100000");
    assert_eq!(tasks.to_ics(), icalendar_text(&tasks));
}
